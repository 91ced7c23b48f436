//! The first configuration text, written from what the setup wizard
//! collected.

use vstd::prelude::*;
use crate::text::{string_views, chars_of, string_of, append_chars, append_str};
use crate::trim::trim;
use crate::menu::{is_command, is_done};
use crate::number::{render_nat, render_bool, render_u64, render_bool_chars};

verus! {

/// What the setup wizard collected.
#[derive(Debug, Clone, PartialEq, Eq)]
pub struct SetupWizardResult {
    /// Directories that hold model files.
    pub gguf_model_directories: Vec<String>,
    /// Directories that hold prompt files.
    pub prompt_file_directories: Vec<String>,
    /// Directory of the chat logs; read only where logging is enabled.
    pub log_directory_path: String,
    /// Whether chats are logged.
    pub logging_enabled: bool,
    /// Path of the text-generation program.
    pub llama_cpp_directory: String,
}

/// What an entry does at the wizard's question for model directories.
#[derive(Debug, Clone, Copy, PartialEq, Eq)]
pub enum DirectoryStep {
    /// The entry was taken as one more directory.
    Added,
    /// The entry ends the list, which holds at least one directory.
    Finished,
    /// The entry would end the list, but no directory was given yet.
    NeedOne,
}

/// What an entry does at the wizard's question for model directories:
/// `done` ends the list if it holds a directory; any other entry is one
/// more directory.
pub open spec fn directory_step(count: nat, entry: Seq<char>) -> DirectoryStep {
    if is_command(trim(entry), "done"@) {
        if count == 0 {
            DirectoryStep::NeedOne
        } else {
            DirectoryStep::Finished
        }
    } else {
        DirectoryStep::Added
    }
}

impl SetupWizardResult {
    /// The wizard's result before any question was answered: no
    /// directories, and logging enabled.
    pub fn new() -> (r: SetupWizardResult)
        ensures
            r.gguf_model_directories@.len() == 0,
            r.prompt_file_directories@.len() == 0,
            r.log_directory_path@.len() == 0,
            r.logging_enabled,
            r.llama_cpp_directory@.len() == 0,
    {
        SetupWizardResult {
            gguf_model_directories: Vec::new(),
            prompt_file_directories: Vec::new(),
            log_directory_path: String::new(),
            logging_enabled: true,
            llama_cpp_directory: String::new(),
        }
    }

    /// Takes an entry at the question for model directories. An entry
    /// other than `done` is added to the directories; `done` changes
    /// nothing, and ends the list only where it holds a directory.
    pub fn model_directory_entry(&mut self, entry: &str) -> (step: DirectoryStep)
        ensures
            step == directory_step(old(self).gguf_model_directories@.len(), entry@),
            step == DirectoryStep::Added ==> string_views(final(self).gguf_model_directories@)
                == string_views(old(self).gguf_model_directories@).push(entry@),
            step != DirectoryStep::Added ==> final(self).gguf_model_directories@ == old(
                self,
            ).gguf_model_directories@,
            final(self).prompt_file_directories@ == old(self).prompt_file_directories@,
            final(self).log_directory_path@ == old(self).log_directory_path@,
            final(self).logging_enabled == old(self).logging_enabled,
            final(self).llama_cpp_directory@ == old(self).llama_cpp_directory@,
    {
        if is_done(entry) {
            if self.gguf_model_directories.len() == 0 {
                DirectoryStep::NeedOne
            } else {
                DirectoryStep::Finished
            }
        } else {
            let ghost before = string_views(self.gguf_model_directories@);
            self.gguf_model_directories.push(string_of(&chars_of(entry)));
            assert(string_views(self.gguf_model_directories@) =~= before.push(entry@));
            DirectoryStep::Added
        }
    }
}

/// One line `key<number> = "path"` for each path, numbered from 1.
pub open spec fn numbered_lines(key: Seq<char>, paths: Seq<Seq<char>>) -> Seq<char>
    decreases paths.len(),
{
    if paths.len() == 0 {
        Seq::<char>::empty()
    } else {
        numbered_lines(key, paths.drop_last()) + key + render_nat(paths.len()) + " = \""@
            + paths.last() + "\"\n"@
    }
}

/// The log directory's line, where logging is enabled.
pub open spec fn log_directory_line(enabled: bool, path: Seq<char>) -> Seq<char> {
    if enabled {
        "log_directory_path = \""@ + path + "\"\n\n"@
    } else {
        Seq::<char>::empty()
    }
}

/// The comments that close a new configuration text.
pub open spec fn examples_block() -> Seq<char> {
    "# Configuration Examples:\n"@ + "# Additional model directories can be added as:\n"@
        + "# gguf_model_directory_2 = \"/path/to/more/models\"\n"@
        + "# gguf_model_directory_3 = \"/another/path/to/models\"\n\n"@
        + "# Additional prompt directories can be added as:\n"@
        + "# prompt_directory_2 = \"/path/to/more/prompts\"\n"@
        + "# prompt_directory_3 = \"/another/path/to/prompts\"\n\n"@
        + "# example llama.cpp llama-cli path:\n"@
        + "# llama_cli_path = \"/home/oopsy/llama.cpp/build/bin/llama-cli\"\n"@
        + "# Saved modes will appear as:\n"@
        + "# mode_1 = \"model_path|prompt_path|temp=0.8|top_k=40|description\"\n\n"@
}

/// The start of a configuration text: a heading, the program's path and
/// the logging fields.
pub open spec fn config_head(llama: Seq<char>, logging: bool, log_dir: Seq<char>) -> Seq<char> {
    "# QueryGGUF Configuration File\n\n"@ + "llama_cli_path = \""@ + llama + "\"\n\n"@
        + "logging_enabled = "@ + render_bool(logging) + "\n"@ + log_directory_line(
        logging,
        log_dir,
    )
}

/// The configuration text for what the wizard collected: the start, the
/// model directories, an empty line, the prompt directories, the prompt
/// directory's name, and closing comments.
pub open spec fn toml_config(
    llama: Seq<char>,
    logging: bool,
    log_dir: Seq<char>,
    model_dirs: Seq<Seq<char>>,
    prompt_dirs: Seq<Seq<char>>,
) -> Seq<char> {
    config_head(llama, logging, log_dir) + numbered_lines("gguf_model_directory_"@, model_dirs)
        + "\n"@ + numbered_lines("prompt_file_directory_"@, prompt_dirs)
        + "prompt_directory = \"prompts\"\n\n"@ + examples_block()
}

/// Appends one line `key<number> = "path"` for each path.
pub fn append_numbered_lines(r: &mut Vec<char>, key: &str, paths: &Vec<String>)
    ensures
        final(r)@ == old(r)@ + numbered_lines(key@, string_views(paths@)),
{
    let mut i: usize = 0;
    let ghost all = string_views(paths@);
    assert(all.take(0) =~= Seq::<Seq<char>>::empty());
    assert(r@ =~= old(r)@ + numbered_lines(key@, all.take(0)));
    while i < paths.len()
        invariant
            i <= paths@.len(),
            all == string_views(paths@),
            r@ == old(r)@ + numbered_lines(key@, all.take(i as int)),
        decreases paths@.len() - i,
    {
        let ghost before = r@;
        proof {
            assert(all.take(i + 1).drop_last() =~= all.take(i as int));
            assert(all.take(i + 1).last() == paths@[i as int]@);
        }
        append_str(r, key);
        append_chars(r, &render_u64((i + 1) as u64));
        append_str(r, " = \"");
        append_str(r, paths[i].as_str());
        append_str(r, "\"\n");
        i += 1;
        assert(r@ =~= old(r)@ + numbered_lines(key@, all.take(i as int)));
    }
    assert(all.take(paths@.len() as int) =~= all);
}

/// The start of a configuration text.
pub fn config_head_chars(wizard_result: &SetupWizardResult) -> (r: Vec<char>)
    ensures
        r@ == config_head(
            wizard_result.llama_cpp_directory@,
            wizard_result.logging_enabled,
            wizard_result.log_directory_path@,
        ),
{
    let mut r: Vec<char> = chars_of("# QueryGGUF Configuration File\n\n");
    append_str(&mut r, "llama_cli_path = \"");
    append_str(&mut r, wizard_result.llama_cpp_directory.as_str());
    append_str(&mut r, "\"\n\n");
    append_str(&mut r, "logging_enabled = ");
    append_chars(&mut r, &render_bool_chars(wizard_result.logging_enabled));
    append_str(&mut r, "\n");
    let ghost first = r@;
    if wizard_result.logging_enabled {
        let mut line: Vec<char> = chars_of("log_directory_path = \"");
        append_str(&mut line, wizard_result.log_directory_path.as_str());
        append_str(&mut line, "\"\n\n");
        append_chars(&mut r, &line);
    }
    assert(r@ =~= first + log_directory_line(
        wizard_result.logging_enabled,
        wizard_result.log_directory_path@,
    ));
    r
}

/// The comments that close a new configuration text.
pub fn examples_block_chars() -> (r: Vec<char>)
    ensures
        r@ == examples_block(),
{
    let mut r: Vec<char> = chars_of("# Configuration Examples:\n");
    append_str(&mut r, "# Additional model directories can be added as:\n");
    append_str(&mut r, "# gguf_model_directory_2 = \"/path/to/more/models\"\n");
    append_str(&mut r, "# gguf_model_directory_3 = \"/another/path/to/models\"\n\n");
    append_str(&mut r, "# Additional prompt directories can be added as:\n");
    append_str(&mut r, "# prompt_directory_2 = \"/path/to/more/prompts\"\n");
    append_str(&mut r, "# prompt_directory_3 = \"/another/path/to/prompts\"\n\n");
    append_str(&mut r, "# example llama.cpp llama-cli path:\n");
    append_str(&mut r, "# llama_cli_path = \"/home/oopsy/llama.cpp/build/bin/llama-cli\"\n");
    append_str(&mut r, "# Saved modes will appear as:\n");
    append_str(&mut r, "# mode_1 = \"model_path|prompt_path|temp=0.8|top_k=40|description\"\n\n");
    r
}

/// Writes the configuration text for what the setup wizard collected.
pub fn generate_toml_config(wizard_result: &SetupWizardResult) -> (r: String)
    ensures
        r@ == toml_config(
            wizard_result.llama_cpp_directory@,
            wizard_result.logging_enabled,
            wizard_result.log_directory_path@,
            string_views(wizard_result.gguf_model_directories@),
            string_views(wizard_result.prompt_file_directories@),
        ),
{
    let mut r: Vec<char> = config_head_chars(wizard_result);
    append_numbered_lines(&mut r, "gguf_model_directory_", &wizard_result.gguf_model_directories);
    append_str(&mut r, "\n");
    append_numbered_lines(&mut r, "prompt_file_directory_", &wizard_result.prompt_file_directories);
    append_str(&mut r, "prompt_directory = \"prompts\"\n\n");
    append_chars(&mut r, &examples_block_chars());
    string_of(&r)
}

} // verus!
