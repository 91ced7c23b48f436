//! What the user typed, and what it asks for: answers to yes-or-no
//! questions, the commands and numbers of the mode menu, and numbers picked
//! from a list.

use vstd::prelude::*;
use crate::text::{chars_of, string_of, append_str, is_str};
use crate::trim::{trim, trim_chars};
use crate::number::{parse_usize, parse_usize_chars, render_nat, render_u64};
use crate::decimal::{lower, lower_is};
use crate::field::field_of;
use crate::mode::{ChatModeConfig, Mode};
use crate::store::{default_mode};

verus! {

/// Whether the small form of `c` is the ASCII character `w`. Besides the
/// ASCII capital letters, the Kelvin sign has an ASCII small form, `k`.
pub open spec fn folds_to(c: char, w: char) -> bool {
    lower(c) == w || (c == '\u{212A}' && w == 'k')
}

/// Whether `s`, in small letters, is the word `word`, itself in ASCII small
/// letters.
pub open spec fn is_command(s: Seq<char>, word: Seq<char>) -> bool {
    s.len() == word.len() && forall|i: int| 0 <= i < s.len() ==> folds_to(#[trigger] s[i], word[i])
}

/// The answer to a yes-or-no question: `y` or `yes` for yes, `n` or `no`
/// for no, in either case and with white space around it; anything else is
/// no answer.
pub open spec fn yes_no(input: Seq<char>) -> Option<bool> {
    let t = trim(input);
    if is_command(t, "y"@) || is_command(t, "yes"@) {
        Some(true)
    } else if is_command(t, "n"@) || is_command(t, "no"@) {
        Some(false)
    } else {
        None
    }
}

/// What an entry at the mode menu asks for.
#[derive(Debug, Clone, Copy, PartialEq, Eq)]
pub enum MenuAction {
    /// Launch the mode with this number.
    Launch(usize),
    /// Nothing was entered and the configuration names no default mode.
    NoDefault,
    /// Leave the program.
    Quit,
    /// Open the configuration in an editor.
    EditConfig,
    /// Set up a mode by hand.
    Manual,
    /// Launch a mode with the contents of a directory.
    Directory,
    /// The entry is no command and no number.
    Invalid,
}

/// What an entry at the mode menu asks for. The entry is trimmed and read
/// without regard to case. An empty entry asks for the default mode of the
/// configuration.
pub open spec fn menu_action(input: Seq<char>, config_text: Seq<char>) -> MenuAction {
    let t = trim(input);
    if t.len() == 0 {
        match default_mode(config_text) {
            Some(n) => MenuAction::Launch(n),
            None => MenuAction::NoDefault,
        }
    } else if is_command(t, "quit"@) || is_command(t, "q"@) || is_command(t, "exit"@) {
        MenuAction::Quit
    } else if is_command(t, "config"@) {
        MenuAction::EditConfig
    } else if is_command(t, "make"@) || is_command(t, "manual"@) {
        MenuAction::Manual
    } else if is_command(t, "dir"@) || is_command(t, "directory"@) {
        MenuAction::Directory
    } else {
        match parse_usize(t) {
            Some(n) => MenuAction::Launch(n),
            None => MenuAction::Invalid,
        }
    }
}

/// What a mode selection asks for.
#[derive(Debug, Clone, Copy, PartialEq, Eq)]
pub enum Selection {
    /// Launch a mode with the contents of a directory.
    Directory,
    /// Set up a mode by hand.
    Manual,
    /// Launch the mode with this number.
    Mode(usize),
    /// The selection is no command and no number.
    Invalid,
}

/// What a mode selection asks for. The selection is trimmed; the commands
/// are in small letters.
pub open spec fn selection(choice: Seq<char>) -> Selection {
    let t = trim(choice);
    if t == "dir"@ || t == "directory"@ {
        Selection::Directory
    } else if t == "make"@ || t == "manual"@ {
        Selection::Manual
    } else {
        match parse_usize(t) {
            Some(n) => Selection::Mode(n),
            None => Selection::Invalid,
        }
    }
}

/// Why an entry picks nothing from a list.
#[derive(Debug, Clone, Copy, PartialEq, Eq)]
pub enum PickError {
    /// The entry is no number.
    NotANumber,
    /// The entry is 0; the list is numbered from 1.
    Zero,
    /// The number is greater than the length of the list.
    OutOfRange,
}

/// The index that an entry picks from a list of `count` items numbered from
/// 1.
pub open spec fn picked_index(input: Seq<char>, count: nat) -> Result<usize, PickError> {
    match parse_usize(trim(input)) {
        None => Err(PickError::NotANumber),
        Some(n) => if n == 0 {
            Err(PickError::Zero)
        } else if n > count {
            Err(PickError::OutOfRange)
        } else {
            Ok((n - 1) as usize)
        },
    }
}

/// One line of the mode menu: the number, the name and the description.
pub open spec fn menu_line(number: nat, m: Mode) -> Seq<char> {
    render_nat(number) + ". "@ + m.name + " - "@ + m.description
}

/// Decides `folds_to`.
pub fn folds_to_char(c: char, w: char) -> (r: bool)
    ensures
        r == folds_to(c, w),
{
    lower_is(c, w) || (c == '\u{212A}' && w == 'k')
}

/// Decides `is_command` for the word `word`.
pub fn is_command_chars(v: &Vec<char>, word: &str) -> (r: bool)
    ensures
        r == is_command(v@, word@),
{
    let w = chars_of(word);
    if v.len() != w.len() {
        return false;
    }
    let mut i: usize = 0;
    while i < v.len()
        invariant
            v@.len() == w@.len(),
            w@ == word@,
            i <= v@.len(),
            forall|j: int| 0 <= j < i ==> folds_to(#[trigger] v@[j], w@[j]),
        decreases v@.len() - i,
    {
        if !folds_to_char(v[i], w[i]) {
            return false;
        }
        i += 1;
    }
    true
}

/// Reads the answer to a yes-or-no question.
pub fn parse_yes_no(input: &str) -> (r: Option<bool>)
    ensures
        r == yes_no(input@),
{
    let t = trim_chars(&chars_of(input));
    if is_command_chars(&t, "y") || is_command_chars(&t, "yes") {
        Some(true)
    } else if is_command_chars(&t, "n") || is_command_chars(&t, "no") {
        Some(false)
    } else {
        None
    }
}

/// Whether an entry of the setup wizard ends a list: `done`, in either
/// case and with white space around it.
pub fn is_done(input: &str) -> (r: bool)
    ensures
        r == is_command(trim(input@), "done"@),
{
    is_command_chars(&trim_chars(&chars_of(input)), "done")
}

/// Reads an entry at the mode menu, with the configuration text at hand for
/// the default mode.
pub fn read_menu_entry(input: &str, config_text: &str) -> (r: MenuAction)
    ensures
        r == menu_action(input@, config_text@),
{
    let t = trim_chars(&chars_of(input));
    if t.len() == 0 {
        let value = field_of(&chars_of(config_text), &chars_of("default_mode"));
        match parse_usize_chars(&value) {
            Some(n) => MenuAction::Launch(n),
            None => MenuAction::NoDefault,
        }
    } else if is_command_chars(&t, "quit") || is_command_chars(&t, "q") || is_command_chars(
        &t,
        "exit",
    ) {
        MenuAction::Quit
    } else if is_command_chars(&t, "config") {
        MenuAction::EditConfig
    } else if is_command_chars(&t, "make") || is_command_chars(&t, "manual") {
        MenuAction::Manual
    } else if is_command_chars(&t, "dir") || is_command_chars(&t, "directory") {
        MenuAction::Directory
    } else {
        match parse_usize_chars(&t) {
            Some(n) => MenuAction::Launch(n),
            None => MenuAction::Invalid,
        }
    }
}

/// Reads a mode selection: a command or the number of a saved mode.
pub fn read_selection(choice: &str) -> (r: Selection)
    ensures
        r == selection(choice@),
{
    let t = trim_chars(&chars_of(choice));
    if is_str(&t, "dir") || is_str(&t, "directory") {
        Selection::Directory
    } else if is_str(&t, "make") || is_str(&t, "manual") {
        Selection::Manual
    } else {
        match parse_usize_chars(&t) {
            Some(n) => Selection::Mode(n),
            None => Selection::Invalid,
        }
    }
}

/// The saved mode with the number `number`, counted from 1, or nothing
/// where there is no such mode.
pub fn select_mode(modes: &Vec<ChatModeConfig>, number: usize) -> (r: Option<&ChatModeConfig>)
    ensures
        1 <= number <= modes@.len() ==> r == Some(&modes@[number - 1]),
        !(1 <= number <= modes@.len()) ==> r is None,
{
    if number >= 1 && number <= modes.len() {
        Some(&modes[number - 1])
    } else {
        None
    }
}

/// Reads the number of an item in a list of `count` items and returns its
/// index.
pub fn pick_index(input: &str, count: usize) -> (r: Result<usize, PickError>)
    ensures
        r == picked_index(input@, count as nat),
{
    let t = trim_chars(&chars_of(input));
    match parse_usize_chars(&t) {
        None => Err(PickError::NotANumber),
        Some(n) => {
            if n == 0 {
                Err(PickError::Zero)
            } else if n > count {
                Err(PickError::OutOfRange)
            } else {
                Ok(n - 1)
            }
        },
    }
}

/// The lines of the mode menu, one for each saved mode, numbered from 1.
pub fn mode_menu_lines(modes: &Vec<ChatModeConfig>) -> (r: Vec<String>)
    ensures
        r@.len() == modes@.len(),
        forall|i: int|
            0 <= i < r@.len() ==> (#[trigger] r@[i])@ == menu_line((i + 1) as nat, modes@[i]@),
{
    let mut r: Vec<String> = Vec::new();
    let mut i: usize = 0;
    while i < modes.len()
        invariant
            i <= modes@.len(),
            r@.len() == i,
            forall|j: int|
                0 <= j < i ==> (#[trigger] r@[j])@ == menu_line((j + 1) as nat, modes@[j]@),
        decreases modes@.len() - i,
    {
        let mut line: Vec<char> = render_u64((i + 1) as u64);
        append_str(&mut line, ". ");
        append_str(&mut line, modes[i].name.as_str());
        append_str(&mut line, " - ");
        append_str(&mut line, modes[i].description.as_str());
        r.push(string_of(&line));
        i += 1;
    }
    r
}

} // verus!
