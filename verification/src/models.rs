//! The directories in which a configuration says that models are found.

use vstd::prelude::*;
use crate::text::{views, chars_of, strings_of, slice_of, append_chars, has_prefix};
use crate::trim::{trim, strip_one, trim_chars, strip_one_chars};
use crate::split::{split, lines, lines_of, split_chars};
use crate::path::{join_path, join_chars};

verus! {

/// A configured directory as an absolute path: a leading `~` stands for the
/// home directory, and a relative path is placed below it.
pub open spec fn below_home(path: Seq<char>, home: Seq<char>) -> Seq<char> {
    if path.len() > 0 && path[0] == '~' {
        home + path.drop_first()
    } else {
        join_path(home, path)
    }
}

/// Whether a line names a model directory: it begins with
/// `gguf_model_directory_` and holds `=`.
pub open spec fn names_model_directory(line: Seq<char>) -> bool {
    "gguf_model_directory_"@.is_prefix_of(line) && split(line, '=').len() >= 2
}

/// The directory that a line names: what stands between the first `=` and
/// the next, trimmed and without one layer of surrounding double quotes,
/// below the home directory.
pub open spec fn line_directory(line: Seq<char>, home: Seq<char>) -> Seq<char> {
    below_home(strip_one(trim(split(line, '=')[1]), '"'), home)
}

/// The model directories that the lines name, in the order of the lines.
pub open spec fn line_directories(lines: Seq<Seq<char>>, home: Seq<char>) -> Seq<Seq<char>>
    decreases lines.len(),
{
    if lines.len() == 0 {
        Seq::<Seq<char>>::empty()
    } else if names_model_directory(lines.last()) {
        line_directories(lines.drop_last(), home).push(line_directory(lines.last(), home))
    } else {
        line_directories(lines.drop_last(), home)
    }
}

/// The model directories of a configuration text, in the order of its
/// lines.
pub open spec fn configured_directories(text: Seq<char>, home: Seq<char>) -> Seq<Seq<char>> {
    line_directories(lines(text), home)
}

/// A configured directory as an absolute path.
pub fn below_home_chars(path: &Vec<char>, home: &Vec<char>) -> (r: Vec<char>)
    ensures
        r@ == below_home(path@, home@),
{
    if path.len() > 0 && path[0] == '~' {
        let mut r: Vec<char> = Vec::new();
        append_chars(&mut r, home);
        let rest = slice_of(path, 1, path.len());
        assert(rest@ =~= path@.drop_first());
        append_chars(&mut r, &rest);
        assert(r@ =~= home@ + path@.drop_first());
        r
    } else {
        join_chars(home, path)
    }
}

/// Reads the model directories from a configuration text: one for each line
/// that begins with `gguf_model_directory_` and holds `=`, each made
/// absolute with the home directory `home_dir`.
pub fn model_directories(config_text: &str, home_dir: &str) -> (r: Vec<String>)
    ensures
        crate::text::string_views(r@) == configured_directories(config_text@, home_dir@),
{
    let all = lines_of(&chars_of(config_text));
    let home = chars_of(home_dir);
    let prefix = chars_of("gguf_model_directory_");
    let mut found: Vec<Vec<char>> = Vec::new();
    let mut i: usize = 0;
    assert(views(all@).take(0) =~= Seq::<Seq<char>>::empty());
    assert(views(found@) =~= Seq::<Seq<char>>::empty());
    while i < all.len()
        invariant
            i <= all@.len(),
            prefix@ == "gguf_model_directory_"@,
            views(found@) == line_directories(views(all@).take(i as int), home@),
        decreases all@.len() - i,
    {
        let ghost before = views(found@);
        proof {
            assert(views(all@).take(i + 1).drop_last() =~= views(all@).take(i as int));
            assert(views(all@).take(i + 1).last() == all@[i as int]@);
        }
        if has_prefix(&all[i], &prefix) {
            let pieces = split_chars(&all[i], '=');
            if pieces.len() >= 2 {
                assert(views(pieces@)[1] == pieces@[1]@);
                let raw = strip_one_chars(&trim_chars(&pieces[1]), '"');
                let dir = below_home_chars(&raw, &home);
                found.push(dir);
                assert(views(found@) =~= before.push(line_directory(all@[i as int]@, home@)));
            }
        }
        i += 1;
    }
    assert(views(all@).take(all@.len() as int) =~= views(all@));
    strings_of(&found)
}

} // verus!
