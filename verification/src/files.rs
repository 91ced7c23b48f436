//! File names: the extension of a path, and the extensions of text files.

use vstd::prelude::*;
use crate::text::{chars_of, string_of, slice_of, is_str, append_str};
use crate::decimal::lower;

verus! {

/// A path without the slashes and the `.` components at its end, which
/// name no file.
pub open spec fn without_trailing(path: Seq<char>) -> Seq<char>
    decreases path.len(),
{
    if path.len() > 0 && path.last() == '/' {
        without_trailing(path.drop_last())
    } else if path.len() >= 2 && path.last() == '.' && path[path.len() - 2] == '/' {
        without_trailing(path.drop_last())
    } else {
        path
    }
}

/// The index behind the last occurrence of `c` in `s`, or 0 where `c` does
/// not occur.
pub open spec fn after_last(s: Seq<char>, c: char) -> int
    decreases s.len(),
{
    if s.len() == 0 {
        0
    } else if s.last() == c {
        s.len() as int
    } else {
        after_last(s.drop_last(), c)
    }
}

/// The last component of a path: what follows its last `/`, once trailing
/// slashes and `.` components are set aside.
pub open spec fn file_name(path: Seq<char>) -> Seq<char> {
    let p = without_trailing(path);
    p.skip(after_last(p, '/'))
}

/// The extension of a path: what follows the last `.` of its file name.
/// There is none where the file name holds no `.`, where its only `.` is its
/// first character, and for the name `..`.
pub open spec fn extension(path: Seq<char>) -> Option<Seq<char>> {
    let name = file_name(path);
    let at = after_last(name, '.');
    if at <= 1 || name == seq!['.', '.'] {
        None
    } else {
        Some(name.skip(at))
    }
}

/// A text with its ASCII capital letters made small.
pub open spec fn lower_text(s: Seq<char>) -> Seq<char> {
    Seq::new(s.len(), |i: int| lower(s[i]))
}

/// Whether `ext` is the extension of a text file.
pub open spec fn is_text_extension(ext: Seq<char>) -> bool {
    ||| ext == "txt"@
    ||| ext == "md"@
    ||| ext == "rs"@
    ||| ext == "py"@
    ||| ext == "js"@
    ||| ext == "json"@
    ||| ext == "toml"@
    ||| ext == "yaml"@
    ||| ext == "yml"@
    ||| ext == "css"@
    ||| ext == "html"@
    ||| ext == "htm"@
    ||| ext == "xml"@
    ||| ext == "csv"@
    ||| ext == "log"@
    ||| ext == "sh"@
    ||| ext == "bash"@
    ||| ext == "c"@
    ||| ext == "cpp"@
    ||| ext == "h"@
    ||| ext == "hpp"@
    ||| ext == "java"@
    ||| ext == "go"@
    ||| ext == "rb"@
    ||| ext == "pl"@
    ||| ext == "php"@
}

/// Whether a path names a text file, going by its extension without regard
/// to case.
pub open spec fn is_text_path(path: Seq<char>) -> bool {
    match extension(path) {
        Some(ext) => is_text_extension(lower_text(ext)),
        None => false,
    }
}

/// The ASCII small letter of a capital letter; any other character as it is.
pub fn lower_char(c: char) -> (r: char)
    ensures
        r == lower(c),
{
    let n: u32 = c as u32;
    if 0x41 <= n && n <= 0x5A {
        ((n + 0x20) as u8) as char
    } else {
        c
    }
}

/// The index behind the last occurrence of `c` in the first `end`
/// characters of `v`, or 0.
pub fn after_last_in(v: &Vec<char>, end: usize, c: char) -> (r: usize)
    requires
        end <= v@.len(),
    ensures
        r == after_last(v@.take(end as int), c),
        r <= end,
{
    let mut i: usize = end;
    while i > 0 && v[i - 1] != c
        invariant
            i <= end <= v@.len(),
            after_last(v@.take(end as int), c) == after_last(v@.take(i as int), c),
        decreases i,
    {
        assert(v@.take(i as int).drop_last() =~= v@.take(i - 1));
        assert(v@.take(i as int).last() == v@[i - 1]);
        i -= 1;
    }
    proof {
        if i > 0 {
            assert(v@.take(i as int).last() == v@[i - 1]);
        }
    }
    i
}

/// The length of a path without the slashes and `.` components at its end.
pub fn trailing_end(path: &Vec<char>) -> (end: usize)
    ensures
        end <= path@.len(),
        path@.take(end as int) == without_trailing(path@),
{
    let mut end: usize = path.len();
    assert(path@.take(end as int) =~= path@);
    while end > 0 && (path[end - 1] == '/' || (end >= 2 && path[end - 1] == '.' && path[end - 2]
        == '/'))
        invariant
            end <= path@.len(),
            without_trailing(path@) == without_trailing(path@.take(end as int)),
        decreases end,
    {
        assert(path@.take(end as int).drop_last() =~= path@.take(end - 1));
        assert(path@.take(end as int).last() == path@[end - 1]);
        if end >= 2 {
            assert(path@.take(end as int)[end - 2] == path@[end - 2]);
        }
        end -= 1;
    }
    proof {
        if end > 0 {
            assert(path@.take(end as int).last() == path@[end - 1]);
        }
        if end >= 2 {
            assert(path@.take(end as int)[end - 2] == path@[end - 2]);
        }
    }
    end
}

/// The extension of a path, with its ASCII capital letters made small.
pub fn lower_extension(path: &Vec<char>) -> (r: Option<Vec<char>>)
    ensures
        match extension(path@) {
            Some(ext) => r matches Some(v) && v@ == lower_text(ext),
            None => r is None,
        },
{
    let end: usize = trailing_end(path);
    let start: usize = after_last_in(path, end, '/');
    let name = slice_of(path, start, end);
    assert(name@ =~= file_name(path@));
    assert(name@.take(name@.len() as int) =~= name@);
    let at: usize = after_last_in(&name, name.len(), '.');
    if at <= 1 || (name.len() == 2 && name[0] == '.' && name[1] == '.') {
        proof {
            if at > 1 {
                assert(name@ =~= seq!['.', '.']);
            }
        }
        return None;
    }
    proof {
        if name@ == seq!['.', '.'] {
            assert(name@.len() == 2 && name@[0] == '.' && name@[1] == '.');
        }
    }
    let mut ext: Vec<char> = Vec::new();
    let mut i: usize = at;
    while i < name.len()
        invariant
            at <= i <= name@.len(),
            ext@.len() == i - at,
            forall|j: int| 0 <= j < i - at ==> #[trigger] ext@[j] == lower(name@[at + j]),
        decreases name@.len() - i,
    {
        ext.push(lower_char(name[i]));
        i += 1;
    }
    assert(ext@ =~= lower_text(name@.skip(at as int)));
    Some(ext)
}

/// Decides `is_text_extension`.
pub fn is_text_extension_chars(ext: &Vec<char>) -> (r: bool)
    ensures
        r == is_text_extension(ext@),
{
    is_str(ext, "txt") || is_str(ext, "md") || is_str(ext, "rs") || is_str(ext, "py") || is_str(
        ext,
        "js",
    ) || is_str(ext, "json") || is_str(ext, "toml") || is_str(ext, "yaml") || is_str(ext, "yml")
        || is_str(ext, "css") || is_str(ext, "html") || is_str(ext, "htm") || is_str(ext, "xml")
        || is_str(ext, "csv") || is_str(ext, "log") || is_str(ext, "sh") || is_str(ext, "bash")
        || is_str(ext, "c") || is_str(ext, "cpp") || is_str(ext, "h") || is_str(ext, "hpp")
        || is_str(ext, "java") || is_str(ext, "go") || is_str(ext, "rb") || is_str(ext, "pl")
        || is_str(ext, "php")
}

/// Whether a path is likely to name a text file: whether its extension, in
/// small letters, is one of those known for text.
pub fn is_likely_text_file(path: &str) -> (r: bool)
    ensures
        r == is_text_path(path@),
{
    match lower_extension(&chars_of(path)) {
        Some(ext) => is_text_extension_chars(&ext),
        None => false,
    }
}

/// The line of a directory tree for one entry: the prefix of its level, a
/// branch mark, and the entry's name. The last entry of a directory has a
/// mark of its own.
pub open spec fn tree_line_text(prefix: Seq<char>, is_last: bool, name: Seq<char>) -> Seq<char> {
    prefix + (if is_last {
        "└──"@
    } else {
        "├──"@
    }) + " "@ + name + "\n"@
}

/// The prefix for the entries of a directory that is itself an entry: below
/// the last entry nothing is drawn, below another the line goes on.
pub open spec fn child_prefix_text(prefix: Seq<char>, is_last: bool) -> Seq<char> {
    prefix + (if is_last {
        "    "@
    } else {
        "│   "@
    })
}

/// The contents of one file under a heading with its name.
pub open spec fn file_section_text(name: Seq<char>, content: Seq<char>) -> Seq<char> {
    "\n=== "@ + name + " ===\n"@ + content + "\n"@
}

/// A prompt followed by a directory's tree and the contents of its files.
pub open spec fn combined_prompt_text(
    prompt: Seq<char>,
    tree: Seq<char>,
    contents: Seq<char>,
) -> Seq<char> {
    prompt + "\n\nDirectory Structure:\n"@ + tree + "\n\nFile Contents:"@ + contents + "\n"@
}

/// Writes the line of a directory tree for one entry.
pub fn tree_line(prefix: &str, is_last: bool, name: &str) -> (r: String)
    ensures
        r@ == tree_line_text(prefix@, is_last, name@),
{
    let mut r: Vec<char> = chars_of(prefix);
    if is_last {
        append_str(&mut r, "└──");
    } else {
        append_str(&mut r, "├──");
    }
    append_str(&mut r, " ");
    append_str(&mut r, name);
    append_str(&mut r, "\n");
    string_of(&r)
}

/// The prefix for the entries of a directory that is itself an entry.
pub fn child_prefix(prefix: &str, is_last: bool) -> (r: String)
    ensures
        r@ == child_prefix_text(prefix@, is_last),
{
    let mut r: Vec<char> = chars_of(prefix);
    if is_last {
        append_str(&mut r, "    ");
    } else {
        append_str(&mut r, "│   ");
    }
    string_of(&r)
}

/// Writes the contents of one file under a heading with its name.
pub fn file_section(name: &str, content: &str) -> (r: String)
    ensures
        r@ == file_section_text(name@, content@),
{
    let mut r: Vec<char> = chars_of("\n=== ");
    append_str(&mut r, name);
    append_str(&mut r, " ===\n");
    append_str(&mut r, content);
    append_str(&mut r, "\n");
    string_of(&r)
}

/// Writes a prompt followed by a directory's tree and the contents of its
/// files.
pub fn combined_prompt(prompt: &str, tree: &str, contents: &str) -> (r: String)
    ensures
        r@ == combined_prompt_text(prompt@, tree@, contents@),
{
    let mut r: Vec<char> = chars_of(prompt);
    append_str(&mut r, "\n\nDirectory Structure:\n");
    append_str(&mut r, tree);
    append_str(&mut r, "\n\nFile Contents:");
    append_str(&mut r, contents);
    append_str(&mut r, "\n");
    string_of(&r)
}

} // verus!
