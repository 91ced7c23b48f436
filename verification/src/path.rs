//! The path resolver.
//!
//! Paths are texts with `/` between their components. A path is absolute
//! when it begins with `/`. Nothing here looks at the file system: whether a
//! path exists, and what it is once links are followed, is for the caller
//! to find out.

use vstd::prelude::*;
use crate::text::{chars_of, string_of, slice_of, append_chars, has_prefix};
use crate::trim::{trim, strip_start, trim_chars, strip_start_index};

verus! {

/// Whether a path is absolute: it begins with `/`.
pub open spec fn is_absolute(path: Seq<char>) -> bool {
    path.len() > 0 && path[0] == '/'
}

/// `rel` below the directory `base`. An absolute `rel` stands for itself.
/// Otherwise it follows `base`, with a `/` between them unless `base` is
/// empty or already ends with one.
pub open spec fn join_path(base: Seq<char>, rel: Seq<char>) -> Seq<char> {
    if is_absolute(rel) {
        rel
    } else if base.len() == 0 {
        rel
    } else if base.last() == '/' {
        base + rel
    } else {
        base.push('/') + rel
    }
}

/// `s` without the copies of `prefix` that it begins with.
pub open spec fn strip_prefix_all(s: Seq<char>, prefix: Seq<char>) -> Seq<char>
    decreases s.len(),
{
    if prefix.len() > 0 && prefix.is_prefix_of(s) {
        strip_prefix_all(s.skip(prefix.len() as int), prefix)
    } else {
        s
    }
}

/// The directory of the application's files below the home directory.
pub open spec fn app_base_dir(home: Seq<char>) -> Seq<char> {
    join_path(home, "query_gguf"@)
}

/// The path of the configuration file below the home directory.
pub open spec fn config_path(home: Seq<char>) -> Seq<char> {
    join_path(app_base_dir(home), "query_gguf_config.toml"@)
}

/// The directory of the prompt files below the home directory.
pub open spec fn prompts_dir(home: Seq<char>) -> Seq<char> {
    join_path(app_base_dir(home), "prompts"@)
}

/// The path of the blank prompt in a directory of prompt files.
pub open spec fn blank_prompt_path(prompts_dir: Seq<char>) -> Seq<char> {
    join_path(prompts_dir, "blankprompt.txt"@)
}

/// A stored model path as an absolute path: itself where it is absolute,
/// else the stored path below the home directory.
pub open spec fn resolve_model_path(stored: Seq<char>, home: Seq<char>) -> Seq<char> {
    join_path(home, stored)
}

/// A stored prompt path without the leading `prompts/` components and
/// slashes that would nest it twice below the prompt directory.
pub open spec fn prompt_file_part(stored: Seq<char>) -> Seq<char> {
    strip_start(strip_prefix_all(stored, "prompts/"@), '/')
}

/// A stored prompt path as an absolute path: itself where it is absolute,
/// else its file part below the prompt directory.
pub open spec fn resolve_prompt_path(stored: Seq<char>, prompts_dir: Seq<char>) -> Seq<char> {
    if is_absolute(stored) {
        stored
    } else {
        join_path(prompts_dir, prompt_file_part(stored))
    }
}

/// Why a path could not be made absolute.
#[derive(Debug, Clone, Copy, PartialEq, Eq)]
pub enum PathError {
    /// The path begins with `~` and the home directory is not known.
    NoHomeDirectory,
    /// The path is relative and the current directory is not known.
    NoCurrentDirectory,
}

/// A path as the user typed it, made absolute: trimmed, a leading `~`
/// replaced by the home directory, and a relative path placed below the
/// current directory.
pub open spec fn absolute_form(
    path: Seq<char>,
    home: Option<Seq<char>>,
    current: Option<Seq<char>>,
) -> Result<Seq<char>, PathError> {
    let typed = trim(path);
    if typed.len() > 0 && typed[0] == '~' && home is None {
        Err(PathError::NoHomeDirectory)
    } else {
        let expanded = if typed.len() > 0 && typed[0] == '~' {
            home->0 + typed.drop_first()
        } else {
            typed
        };
        if is_absolute(expanded) {
            Ok(expanded)
        } else if current is None {
            Err(PathError::NoCurrentDirectory)
        } else {
            Ok(join_path(current->0, expanded))
        }
    }
}

/// The strip of `prefix` copies leaves a suffix of the text.
pub proof fn lemma_strip_prefix_all(s: Seq<char>, prefix: Seq<char>)
    ensures
        strip_prefix_all(s, prefix).len() <= s.len(),
        strip_prefix_all(s, prefix) == s.skip(s.len() - strip_prefix_all(s, prefix).len()),
    decreases s.len(),
{
    if prefix.len() > 0 && prefix.is_prefix_of(s) {
        let t = s.skip(prefix.len() as int);
        lemma_strip_prefix_all(t, prefix);
        let k = t.len() - strip_prefix_all(t, prefix).len();
        assert(t.skip(k) =~= s.skip(prefix.len() + k));
    } else {
        assert(s.skip(0) =~= s);
    }
}

/// Decides `is_absolute`.
pub fn is_absolute_chars(path: &Vec<char>) -> (r: bool)
    ensures
        r == is_absolute(path@),
{
    path.len() > 0 && path[0] == '/'
}

/// `rel` below the directory `base`.
pub fn join_chars(base: &Vec<char>, rel: &Vec<char>) -> (r: Vec<char>)
    ensures
        r@ == join_path(base@, rel@),
{
    let mut r: Vec<char> = Vec::new();
    if is_absolute_chars(rel) || base.len() == 0 {
        append_chars(&mut r, rel);
        assert(r@ =~= rel@);
    } else {
        append_chars(&mut r, base);
        if base[base.len() - 1] != '/' {
            r.push('/');
        }
        append_chars(&mut r, rel);
        assert(r@ =~= join_path(base@, rel@));
    }
    r
}

/// `v` without the copies of `prefix` that it begins with.
pub fn strip_prefix_all_chars(v: &Vec<char>, prefix: &Vec<char>) -> (r: Vec<char>)
    ensures
        r@ == strip_prefix_all(v@, prefix@),
{
    let mut rest: Vec<char> = slice_of(v, 0, v.len());
    assert(rest@ =~= v@);
    if prefix.len() == 0 {
        return rest;
    }
    while has_prefix(&rest, prefix)
        invariant
            prefix@.len() > 0,
            strip_prefix_all(v@, prefix@) == strip_prefix_all(rest@, prefix@),
        decreases rest@.len(),
    {
        let next = slice_of(&rest, prefix.len(), rest.len());
        assert(next@ =~= rest@.skip(prefix@.len() as int));
        rest = next;
    }
    rest
}

/// A stored model path as an absolute path.
pub fn resolve_model_chars(stored: &Vec<char>, home: &Vec<char>) -> (r: Vec<char>)
    ensures
        r@ == resolve_model_path(stored@, home@),
{
    join_chars(home, stored)
}

/// A stored prompt path as an absolute path.
pub fn resolve_prompt_chars(stored: &Vec<char>, prompts_dir: &Vec<char>) -> (r: Vec<char>)
    ensures
        r@ == resolve_prompt_path(stored@, prompts_dir@),
{
    if is_absolute_chars(stored) {
        let r = slice_of(stored, 0, stored.len());
        assert(r@ =~= stored@);
        r
    } else {
        let nested = chars_of("prompts/");
        let inner = strip_prefix_all_chars(stored, &nested);
        let from: usize = strip_start_index(&inner, '/');
        let part = slice_of(&inner, from, inner.len());
        assert(part@ =~= inner@.skip(from as int));
        join_chars(prompts_dir, &part)
    }
}

/// The path of the blank prompt in a directory of prompt files.
pub fn blank_prompt_chars(prompts_dir: &Vec<char>) -> (r: Vec<char>)
    ensures
        r@ == blank_prompt_path(prompts_dir@),
{
    let name = chars_of("blankprompt.txt");
    join_chars(prompts_dir, &name)
}

/// The directory of the application's files below the home directory `home`.
pub fn get_app_base_dir(home: &str) -> (r: String)
    ensures
        r@ == app_base_dir(home@),
{
    let r = join_chars(&chars_of(home), &chars_of("query_gguf"));
    string_of(&r)
}

/// The path of the configuration file below the home directory `home`.
pub fn get_config_path(home: &str) -> (r: String)
    ensures
        r@ == config_path(home@),
{
    let base = join_chars(&chars_of(home), &chars_of("query_gguf"));
    let r = join_chars(&base, &chars_of("query_gguf_config.toml"));
    string_of(&r)
}

/// The directory of the prompt files below the home directory `home`.
pub fn get_prompts_dir(home: &str) -> (r: String)
    ensures
        r@ == prompts_dir(home@),
{
    let base = join_chars(&chars_of(home), &chars_of("query_gguf"));
    let r = join_chars(&base, &chars_of("prompts"));
    string_of(&r)
}

/// Makes a path that the user typed absolute. `home` is the home directory
/// and `current` the current directory, each where it is known. The result
/// is the path to look up in the file system; an error says which directory
/// was needed and not known.
pub fn normalize_path(path: &str, home: Option<&str>, current: Option<&str>) -> (r: Result<
    String,
    PathError,
>)
    ensures
        match absolute_form(
            path@,
            match home {
                Some(h) => Some(h@),
                None => None,
            },
            match current {
                Some(c) => Some(c@),
                None => None,
            },
        ) {
            Ok(p) => r matches Ok(s) && s@ == p,
            Err(e) => r == Err::<String, PathError>(e),
        },
{
    let typed = trim_chars(&chars_of(path));
    let expanded: Vec<char> = if typed.len() > 0 && typed[0] == '~' {
        match home {
            Some(h) => {
                let mut e = chars_of(h);
                let rest = slice_of(&typed, 1, typed.len());
                assert(rest@ =~= typed@.drop_first());
                append_chars(&mut e, &rest);
                e
            },
            None => {
                return Err(PathError::NoHomeDirectory);
            },
        }
    } else {
        typed
    };
    if is_absolute_chars(&expanded) {
        Ok(string_of(&expanded))
    } else {
        match current {
            Some(c) => {
                let r = join_chars(&chars_of(c), &expanded);
                Ok(string_of(&r))
            },
            None => Err(PathError::NoCurrentDirectory),
        }
    }
}

} // verus!
