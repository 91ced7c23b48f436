//! The mode store: the saved modes of a configuration text.
//!
//! The modes are the fields `mode_<number>`. Reading gives them in ascending
//! order of their numbers and passes over a field that is no mode. Saving
//! appends one more field, numbered one above the count of lines that begin
//! with `mode_`, and returns the new text.

use vstd::prelude::*;
use crate::text::{views, chars_of, string_of, append_chars, append_str, has_prefix};
use crate::split::{split, join, lines, lines_of, split_chars, strip_cr, lemma_split_shape};
use crate::number::{parse_usize, parse_usize_chars, render_nat, render_u64};
use crate::field::{
    defines,
    indexed_values,
    values_of,
    entry_views,
    indexed_of,
    field_value,
    field_of,
    assigns_to,
};
use crate::mode::{ChatModeConfig, Mode, decode, encode, decode_parts, encode_chars};

verus! {

/// The views of a vector of modes.
pub open spec fn mode_views(v: Seq<ChatModeConfig>) -> Seq<Mode> {
    Seq::new(v.len(), |i: int| v[i]@)
}

/// The modes that the stored texts give, in order; a text that gives no
/// mode is passed over.
pub open spec fn decode_all(
    values: Seq<Seq<char>>,
    home: Seq<char>,
    prompts_dir: Seq<char>,
    default_threads: i32,
) -> Seq<Mode>
    decreases values.len(),
{
    if values.len() == 0 {
        Seq::<Mode>::empty()
    } else {
        let before = decode_all(values.drop_last(), home, prompts_dir, default_threads);
        match decode(values.last(), home, prompts_dir, default_threads) {
            Some(m) => before.push(m),
            None => before,
        }
    }
}

/// The saved modes of a configuration text, in ascending order of the
/// numbers of their fields.
pub open spec fn saved_modes(
    text: Seq<char>,
    home: Seq<char>,
    prompts_dir: Seq<char>,
    default_threads: i32,
) -> Seq<Mode> {
    decode_all(indexed_values(text, "mode"@), home, prompts_dir, default_threads)
}

/// The number of lines that begin with `mode_`.
pub open spec fn count_mode_lines(lines: Seq<Seq<char>>) -> nat
    decreases lines.len(),
{
    if lines.len() == 0 {
        0
    } else if "mode_"@.is_prefix_of(lines.last()) {
        count_mode_lines(lines.drop_last()) + 1
    } else {
        count_mode_lines(lines.drop_last())
    }
}

/// The number that the next saved mode gets: one more than the count of
/// lines that begin with `mode_`, whether or not they hold a mode.
pub open spec fn next_number(text: Seq<char>) -> nat {
    count_mode_lines(lines(text)) + 1
}

/// The lines that do not assign to `default_mode`.
pub open spec fn without_default(lines: Seq<Seq<char>>) -> Seq<Seq<char>>
    decreases lines.len(),
{
    if lines.len() == 0 {
        lines
    } else if defines(lines.last(), "default_mode"@) {
        without_default(lines.drop_last())
    } else {
        without_default(lines.drop_last()).push(lines.last())
    }
}

/// The line that names mode `number` as the default.
pub open spec fn default_line(number: nat) -> Seq<char> {
    "default_mode = "@ + render_nat(number)
}

/// The comment above a stored mode: its number, name and description.
pub open spec fn header_line(number: nat, m: Mode) -> Seq<char> {
    "# Mode "@ + render_nat(number) + " - "@ + m.name + " - "@ + m.description
}

/// The field that stores a mode under `number`: the key `mode_<number>` and
/// the mode's stored text in double quotes.
pub open spec fn entry_line(number: nat, m: Mode) -> Seq<char> {
    "mode_"@ + render_nat(number) + " = \""@ + encode(m) + "\""@
}

/// The line that names mode `number` as the default, with a line feed
/// before and behind it.
pub open spec fn default_block(number: nat) -> Seq<char> {
    "\n"@ + default_line(number) + "\n"@
}

/// The two lines that store a mode under `number`, each with a line feed
/// behind it, and one before them.
pub open spec fn mode_block(number: nat, m: Mode) -> Seq<char> {
    "\n"@ + header_line(number, m) + "\n"@ + entry_line(number, m) + "\n"@
}

/// A configuration text with one more saved mode. Where the mode becomes
/// the default, the lines that assign to `default_mode` are left out, the
/// others are joined by line feeds, and a new `default_mode` line follows
/// them. The mode's two lines come last.
pub open spec fn with_mode(text: Seq<char>, m: Mode, make_default: bool) -> Seq<char> {
    let number = next_number(text);
    let kept = if make_default {
        join(without_default(lines(text)), '\n') + default_block(number)
    } else {
        text
    };
    kept + mode_block(number, m)
}

/// The number of the default mode: the field `default_mode` read as a
/// number, or nothing where the field is absent or no number.
pub open spec fn default_mode(text: Seq<char>) -> Option<usize> {
    parse_usize(field_value(text, "default_mode"@))
}

/// The number of characters in all the pieces.
pub open spec fn total_len(parts: Seq<Seq<char>>) -> nat
    decreases parts.len(),
{
    if parts.len() == 0 {
        0
    } else {
        total_len(parts.drop_last()) + parts.last().len()
    }
}

/// The pieces of a split and the separators between them make up the text.
pub proof fn lemma_split_total(s: Seq<char>, sep: char)
    ensures
        total_len(split(s, sep)) + split(s, sep).len() == s.len() + 1,
    decreases s.len(),
{
    if s.len() == 0 {
        let p = split(s, sep);
        assert(p.drop_last() =~= Seq::<Seq<char>>::empty());
        assert(total_len(p.drop_last()) == 0);
    } else {
        let t = s.drop_last();
        let head = split(t, sep);
        lemma_split_total(t, sep);
        lemma_split_shape(t, sep);
        if s.last() == sep {
            assert(head.push(Seq::<char>::empty()).drop_last() =~= head);
        } else {
            let p = head.update(head.len() - 1, head.last().push(s.last()));
            assert(p.drop_last() =~= head.drop_last());
        }
    }
}

/// The lines of a text hold no more characters than the text.
pub proof fn lemma_lines_total(s: Seq<char>)
    ensures
        total_len(lines(s)) + lines(s).len() <= s.len() + 1,
{
    let pieces = split(s, '\n');
    lemma_split_total(s, '\n');
    lemma_split_shape(s, '\n');
    let head = pieces.drop_last();
    let ended = head.map_values(|l: Seq<char>| strip_cr(l));
    lemma_strip_total(head);
    assert(pieces =~= head.push(pieces.last()));
    if pieces.last().len() > 0 {
        assert(ended.push(pieces.last()).drop_last() =~= ended);
    }
}

/// Lines without their carriage returns hold no more characters than with
/// them.
pub proof fn lemma_strip_total(parts: Seq<Seq<char>>)
    ensures
        total_len(parts.map_values(|l: Seq<char>| strip_cr(l))) <= total_len(parts),
    decreases parts.len(),
{
    let f = |l: Seq<char>| strip_cr(l);
    if parts.len() > 0 {
        lemma_strip_total(parts.drop_last());
        assert(parts.map_values(f).drop_last() =~= parts.drop_last().map_values(f));
    }
}

/// A line that begins with `mode_` has at least one character, so there are
/// no more such lines than characters.
pub proof fn lemma_count_mode_lines(lines: Seq<Seq<char>>)
    ensures
        count_mode_lines(lines) <= lines.len(),
        "mode_"@.len() > 0 ==> count_mode_lines(lines) <= total_len(lines),
    decreases lines.len(),
{
    if lines.len() > 0 {
        lemma_count_mode_lines(lines.drop_last());
    }
}

/// The number that the next saved mode gets, for a text as characters.
pub fn next_number_of(text: &Vec<char>) -> (number: usize)
    ensures
        number == next_number(text@),
{
    let all = lines_of(text);
    let prefix = chars_of("mode_");
    let mut count: usize = 0;
    let mut i: usize = 0;
    let size: usize = text.len();
    proof {
        lemma_lines_total(text@);
        lemma_count_mode_lines(views(all@));
        reveal_strlit("mode_");
        assert("mode_"@.len() > 0);
        assert(2 * count_mode_lines(views(all@)) <= size + 1);
        assert(usize::MAX >= 3);
        assert(views(all@).take(0) =~= Seq::<Seq<char>>::empty());
    }
    while i < all.len()
        invariant
            i <= all@.len(),
            prefix@ == "mode_"@,
            count == count_mode_lines(views(all@).take(i as int)),
            count_mode_lines(views(all@)) < usize::MAX,
            count_mode_lines(views(all@).take(i as int)) <= count_mode_lines(views(all@)),
        decreases all@.len() - i,
    {
        proof {
            assert(views(all@).take(i + 1).drop_last() =~= views(all@).take(i as int));
            assert(views(all@).take(i + 1).last() == all@[i as int]@);
            lemma_count_mode_lines_prefix(views(all@), i + 1);
        }
        if has_prefix(&all[i], &prefix) {
            count += 1;
        }
        i += 1;
    }
    assert(views(all@).take(all@.len() as int) =~= views(all@));
    count + 1
}

/// The first lines hold no more lines that begin with `mode_` than all of
/// them.
pub proof fn lemma_count_mode_lines_prefix(lines: Seq<Seq<char>>, k: int)
    requires
        0 <= k <= lines.len(),
    ensures
        count_mode_lines(lines.take(k)) <= count_mode_lines(lines),
    decreases lines.len() - k,
{
    if k == lines.len() {
        assert(lines.take(k) =~= lines);
    } else {
        lemma_count_mode_lines_prefix(lines.drop_last(), k);
        assert(lines.drop_last().take(k) =~= lines.take(k));
    }
}

/// The number that the next saved mode gets: one more than the count of
/// lines that begin with `mode_`. Lines are counted, not modes, so a line
/// that holds no mode still moves the number on.
pub fn next_mode_number(config_text: &str) -> (number: usize)
    ensures
        number == next_number(config_text@),
{
    next_number_of(&chars_of(config_text))
}

/// The number of the default mode, or nothing where the field
/// `default_mode` is absent or holds no number.
pub fn get_default_mode(config_text: &str) -> (number: Option<usize>)
    ensures
        number == default_mode(config_text@),
{
    let value = field_of(&chars_of(config_text), &chars_of("default_mode"));
    parse_usize_chars(&value)
}

/// Reads the saved modes of a configuration text, in ascending order of the
/// numbers of their `mode_<number>` fields. A field whose text has fewer
/// than two segments is passed over; the others are decoded with `home_dir`
/// and `prompts_dir` as the directories of relative paths.
pub fn read_saved_modes(
    config_text: &str,
    home_dir: &str,
    prompts_dir: &str,
    default_threads: i32,
) -> (modes: Vec<ChatModeConfig>)
    ensures
        mode_views(modes@) == saved_modes(config_text@, home_dir@, prompts_dir@, default_threads),
{
    let found = indexed_of(&chars_of(config_text), &chars_of("mode"));
    let home = chars_of(home_dir);
    let prompts = chars_of(prompts_dir);
    let mut modes: Vec<ChatModeConfig> = Vec::new();
    let mut i: usize = 0;
    let ghost values = values_of(entry_views(found@));
    assert(values.take(0) =~= Seq::<Seq<char>>::empty());
    assert(mode_views(modes@) =~= Seq::<Mode>::empty());
    while i < found.len()
        invariant
            i <= found@.len(),
            values == values_of(entry_views(found@)),
            mode_views(modes@) == decode_all(
                values.take(i as int),
                home@,
                prompts@,
                default_threads,
            ),
        decreases found@.len() - i,
    {
        let ghost before = mode_views(modes@);
        proof {
            assert(values.take(i + 1).drop_last() =~= values.take(i as int));
            assert(values.take(i + 1).last() == found@[i as int].1@);
        }
        let parts = split_chars(&found[i].1, '|');
        if parts.len() >= 2 {
            let mode = decode_parts(&parts, &home, &prompts, default_threads);
            modes.push(mode);
            assert(mode_views(modes@) =~= before.push(mode@));
        }
        i += 1;
    }
    assert(values.take(found@.len() as int) =~= values);
    modes
}

/// The lines that do not assign to `default_mode`, joined by line feeds.
pub fn kept_lines(text: &Vec<char>) -> (r: Vec<char>)
    ensures
        r@ == join(without_default(lines(text@)), '\n'),
{
    let all = lines_of(text);
    let name = chars_of("default_mode");
    let mut r: Vec<char> = Vec::new();
    let mut kept: usize = 0;
    let mut i: usize = 0;
    assert(views(all@).take(0) =~= Seq::<Seq<char>>::empty());
    while i < all.len()
        invariant
            i <= all@.len(),
            kept <= i,
            name@ == "default_mode"@,
            kept == without_default(views(all@).take(i as int)).len(),
            r@ == join(without_default(views(all@).take(i as int)), '\n'),
        decreases all@.len() - i,
    {
        let ghost before = without_default(views(all@).take(i as int));
        proof {
            assert(views(all@).take(i + 1).drop_last() =~= views(all@).take(i as int));
            assert(views(all@).take(i + 1).last() == all@[i as int]@);
        }
        if !assigns_to(&all[i], &name) {
            if kept > 0 {
                r.push('\n');
            }
            append_chars(&mut r, &all[i]);
            kept += 1;
            proof {
                let after = before.push(all@[i as int]@);
                assert(after.drop_last() =~= before);
                if before.len() == 0 {
                    assert(r@ =~= all@[i as int]@);
                }
            }
        }
        i += 1;
    }
    assert(views(all@).take(all@.len() as int) =~= views(all@));
    r
}

/// The comment above a stored mode, with the number as digits.
pub fn header_line_chars(digits: &Vec<char>, mode: &ChatModeConfig) -> (r: Vec<char>)
    ensures
        r@ == "# Mode "@ + digits@ + " - "@ + mode@.name + " - "@ + mode@.description,
{
    let mut r: Vec<char> = chars_of("# Mode ");
    append_chars(&mut r, digits);
    append_str(&mut r, " - ");
    append_str(&mut r, mode.name.as_str());
    append_str(&mut r, " - ");
    append_str(&mut r, mode.description.as_str());
    r
}

/// The field that stores a mode, with the number as digits.
pub fn entry_line_chars(digits: &Vec<char>, mode: &ChatModeConfig) -> (r: Vec<char>)
    ensures
        r@ == "mode_"@ + digits@ + " = \""@ + encode(mode@) + "\""@,
{
    let mut r: Vec<char> = chars_of("mode_");
    append_chars(&mut r, digits);
    append_str(&mut r, " = \"");
    append_chars(&mut r, &encode_chars(mode));
    append_str(&mut r, "\"");
    r
}

/// A line between two line feeds.
pub fn block_of(line: &Vec<char>) -> (r: Vec<char>)
    ensures
        r@ == "\n"@ + line@ + "\n"@,
{
    let mut r: Vec<char> = chars_of("\n");
    append_chars(&mut r, line);
    append_str(&mut r, "\n");
    r
}

/// Saves a mode: returns the configuration text with the mode appended
/// under the next number. With `make_default`, the new mode also becomes the
/// default: lines that assign to `default_mode` are dropped, so that the
/// new line, written before the mode's lines, is the one that is read.
pub fn save_mode_to_config(config_text: &str, mode: &ChatModeConfig, make_default: bool) -> (r:
    String)
    ensures
        r@ == with_mode(config_text@, mode@, make_default),
{
    let text = chars_of(config_text);
    let number = next_number_of(&text);
    let digits = render_u64(number as u64);
    let mut r: Vec<char> = if make_default {
        let mut kept = kept_lines(&text);
        let mut line = chars_of("default_mode = ");
        append_chars(&mut line, &digits);
        append_chars(&mut kept, &block_of(&line));
        kept
    } else {
        text
    };
    let ghost kept = r@;
    assert(kept == if make_default {
        join(without_default(lines(config_text@)), '\n') + default_block(number as nat)
    } else {
        config_text@
    });
    let header = header_line_chars(&digits, mode);
    let entry = entry_line_chars(&digits, mode);
    assert(header@ == header_line(number as nat, mode@));
    assert(entry@ == entry_line(number as nat, mode@));
    let mut block = block_of(&header);
    append_chars(&mut block, &entry);
    append_str(&mut block, "\n");
    assert(block@ == mode_block(number as nat, mode@));
    append_chars(&mut r, &block);
    string_of(&r)
}

} // verus!
