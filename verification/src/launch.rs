//! The command line that starts the text-generation program for a mode.

use vstd::prelude::*;
use crate::text::{chars_of, string_of, append_chars, append_str};
use crate::number::{render_int, render_i32};
use crate::mode::{ChatModeConfig, Mode};

verus! {

/// The option that places layers on the GPU, where the mode asks for any.
pub open spec fn gpu_option(layers: i32) -> Seq<char> {
    if layers > 0 {
        " --n-gpu-layers "@ + render_int(layers as int)
    } else {
        Seq::<char>::empty()
    }
}

/// The option that makes the program wait for input first, where the mode
/// asks for it.
pub open spec fn interactive_option(interactive_first: bool) -> Seq<char> {
    if interactive_first {
        " --interactive-first"@
    } else {
        Seq::<char>::empty()
    }
}

/// The start of the command line: the program and the two files, each in
/// double quotes.
pub open spec fn files_part(program: Seq<char>, m: Mode) -> Seq<char> {
    "\""@ + program + "\" -m \""@ + m.model_path + "\""@ + " --file \""@ + m.prompt_path + "\""@
}

/// The options of the five parameters that are always given.
pub open spec fn sampling_part(m: Mode) -> Seq<char> {
    " --temp "@ + m.parameters.temperature + " --top-k "@ + render_int(m.parameters.top_k as int)
        + " --top-p "@ + m.parameters.top_p + " --ctx-size "@ + render_int(
        m.parameters.context_size as int,
    ) + " --threads "@ + render_int(m.parameters.thread_count as int)
}

/// The command line for a mode: the program and the two files in double
/// quotes, then the parameters, each behind its option. The GPU layers are
/// named only where there are any, and the program is told to wait for
/// input only where the mode says so.
pub open spec fn command_line(program: Seq<char>, m: Mode) -> Seq<char> {
    files_part(program, m) + sampling_part(m) + gpu_option(m.parameters.gpu_layers)
        + interactive_option(m.parameters.interactive_first) + " --no-display-prompt"@
}

/// The command for a terminal that takes a shell script: the command line,
/// then a prompt that keeps the window open.
pub open spec fn script_with_pause(command: Seq<char>) -> Seq<char> {
    command + ";read -p 'Press Enter to close...'"@
}

/// The command for a terminal that takes one argument to run: a shell that
/// runs the command line and then keeps the window open.
pub open spec fn shell_with_pause(command: Seq<char>) -> Seq<char> {
    "bash -c '"@ + command + ";read -p \"Press Enter to close...\"'"@
}

/// The script that tells the macOS Terminal to run the command line.
pub open spec fn terminal_script(command: Seq<char>) -> Seq<char> {
    "tell application \"Terminal\" to do script \""@ + command + "\""@
}

/// The start of the command line.
pub fn files_part_chars(program: &Vec<char>, mode: &ChatModeConfig) -> (r: Vec<char>)
    ensures
        r@ == files_part(program@, mode@),
{
    let mut r: Vec<char> = chars_of("\"");
    append_chars(&mut r, program);
    append_str(&mut r, "\" -m \"");
    append_str(&mut r, mode.model_path.as_str());
    append_str(&mut r, "\"");
    append_str(&mut r, " --file \"");
    append_str(&mut r, mode.prompt_path.as_str());
    append_str(&mut r, "\"");
    r
}

/// The options of the five parameters that are always given.
pub fn sampling_part_chars(mode: &ChatModeConfig) -> (r: Vec<char>)
    ensures
        r@ == sampling_part(mode@),
{
    let mut r: Vec<char> = chars_of(" --temp ");
    append_str(&mut r, mode.parameters.temperature_value.as_str());
    append_str(&mut r, " --top-k ");
    append_chars(&mut r, &render_i32(mode.parameters.top_k_sampling));
    append_str(&mut r, " --top-p ");
    append_str(&mut r, mode.parameters.top_p_sampling.as_str());
    append_str(&mut r, " --ctx-size ");
    append_chars(&mut r, &render_i32(mode.parameters.context_size));
    append_str(&mut r, " --threads ");
    append_chars(&mut r, &render_i32(mode.parameters.thread_count));
    r
}

/// Builds the command line that starts the program at `llama_cli_path` for
/// a mode. There is none where the path is empty, which is how a
/// configuration without the program's path shows.
pub fn launch_command(llama_cli_path: &str, mode: &ChatModeConfig) -> (r: Option<String>)
    ensures
        llama_cli_path@.len() == 0 ==> r is None,
        llama_cli_path@.len() > 0 ==> (r matches Some(s) && s@ == command_line(
            llama_cli_path@,
            mode@,
        )),
{
    let program = chars_of(llama_cli_path);
    if program.len() == 0 {
        return None;
    }
    let mut r: Vec<char> = files_part_chars(&program, mode);
    append_chars(&mut r, &sampling_part_chars(mode));
    let ghost head = r@;
    if mode.parameters.gpu_layers > 0 {
        append_str(&mut r, " --n-gpu-layers ");
        append_chars(&mut r, &render_i32(mode.parameters.gpu_layers));
    }
    assert(r@ =~= head + gpu_option(mode.parameters.gpu_layers));
    let ghost with_gpu = r@;
    if mode.parameters.interactive_first {
        append_str(&mut r, " --interactive-first");
    }
    assert(r@ =~= with_gpu + interactive_option(mode.parameters.interactive_first));
    append_str(&mut r, " --no-display-prompt");
    Some(string_of(&r))
}

/// The script argument for a terminal that runs a shell script.
pub fn command_with_pause(command: &str) -> (r: String)
    ensures
        r@ == script_with_pause(command@),
{
    let mut r: Vec<char> = chars_of(command);
    append_str(&mut r, ";read -p 'Press Enter to close...'");
    string_of(&r)
}

/// The argument for a terminal that runs one command.
pub fn shell_command_with_pause(command: &str) -> (r: String)
    ensures
        r@ == shell_with_pause(command@),
{
    let mut r: Vec<char> = chars_of("bash -c '");
    append_str(&mut r, command);
    append_str(&mut r, ";read -p \"Press Enter to close...\"'");
    string_of(&r)
}

/// The script that tells the macOS Terminal to run a command.
pub fn macos_terminal_script(command: &str) -> (r: String)
    ensures
        r@ == terminal_script(command@),
{
    let mut r: Vec<char> = chars_of("tell application \"Terminal\" to do script \"");
    append_str(&mut r, command);
    append_str(&mut r, "\"");
    string_of(&r)
}

} // verus!
