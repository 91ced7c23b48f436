//! Saving a mode and reading it back: which modes can be stored, and the
//! law that a stored mode is read back as it was saved.

use vstd::prelude::*;
use crate::text::{chars_of, has_char, lemma_contains_add, lemma_contains_push};
use crate::trim::{
    is_space,
    is_space_char,
    trim,
    trim_start,
    trim_end,
    strip_one,
    lemma_trim_push_space,
    lemma_trim_keeps,
    lemma_trim_nothing,
};
use crate::split::{
    split,
    join,
    lines,
    strip_cr,
    all_free_of,
    find_char,
    lemma_find_char,
    lemma_find_char_is,
    lemma_split_shape,
    lemma_split_append_plain,
    lemma_split_append_sep,
    lemma_split_join,
    lemma_lines_add,
    lemma_join_first,
    lemma_join_last,
};
use crate::number::{is_digit, parse_usize, render_nat, lemma_render_nat, lemma_parse_render_nat};
use crate::decimal::is_float_chars;
use crate::field::{
    defines,
    first_value,
    is_skipped,
    line_key,
    line_value,
    clean_value,
    indexed_key,
    is_entry,
    entries,
    insert_sorted,
    sort_entries,
    values_of,
    indexed_entries,
};
use crate::path::is_absolute_chars;
use crate::mode::{ChatModeConfig, Mode, encode, encode_segments, decode};
use crate::roundtrip::{
    is_base_dir,
    is_canonical,
    mode_free_of,
    lemma_encode_segments_free,
    lemma_decode_encode,
    lemma_decode_is_canonical,
};
use crate::store::{
    default_line,
    default_mode,
    mode_block,
    header_line,
    entry_line,
    default_block,
    with_mode,
    next_number,
    without_default,
    decode_all,
    saved_modes,
    count_mode_lines,
    lemma_lines_total,
    lemma_count_mode_lines,
};

verus! {

/// Whether a mode can be saved in a configuration text and read back: it is
/// in canonical form, none of its texts holds a line feed, and its
/// description does not end with white space.
pub open spec fn is_storable(m: Mode) -> bool {
    &&& is_canonical(m)
    &&& mode_free_of(m, '\n')
    &&& m.description.len() > 0 ==> !is_space(m.description.last())
}

/// Whether none of the texts of a mode holds `c`.
pub fn mode_is_free_of(mode: &ChatModeConfig, c: char) -> (r: bool)
    ensures
        r == mode_free_of(mode@, c),
{
    !has_char(&chars_of(mode.model_path.as_str()), c) && !has_char(
        &chars_of(mode.prompt_path.as_str()),
        c,
    ) && !has_char(&chars_of(mode.name.as_str()), c) && !has_char(
        &chars_of(mode.description.as_str()),
        c,
    ) && !has_char(&chars_of(mode.parameters.temperature_value.as_str()), c) && !has_char(
        &chars_of(mode.parameters.top_p_sampling.as_str()),
        c,
    )
}

/// Decides `is_storable`: whether a mode, once saved, is read back as it
/// is.
pub fn can_be_stored(mode: &ChatModeConfig) -> (r: bool)
    ensures
        r == is_storable(mode@),
{
    let model = chars_of(mode.model_path.as_str());
    let prompt = chars_of(mode.prompt_path.as_str());
    let name = chars_of(mode.name.as_str());
    let description = chars_of(mode.description.as_str());
    let temperature = chars_of(mode.parameters.temperature_value.as_str());
    let top_p = chars_of(mode.parameters.top_p_sampling.as_str());
    let paths_fit = is_absolute_chars(&model) && is_absolute_chars(&prompt) && !has_char(
        &prompt,
        '=',
    );
    let names_fit = !has_char(&name, '=') && !has_char(&description, '=');
    let parameters_fit = is_float_chars(&temperature) && is_float_chars(&top_p);
    let end_fits = description.len() == 0 || !is_space_char(description[description.len() - 1]);
    paths_fit && names_fit && parameters_fit && end_fits && mode_is_free_of(mode, '|')
        && mode_is_free_of(mode, '\n')
}

/// Joined pieces hold a character only where a piece does, or the character
/// is the separator.
pub proof fn lemma_join_free(parts: Seq<Seq<char>>, sep: char, c: char)
    requires
        all_free_of(parts, c),
        sep != c,
    ensures
        !join(parts, sep).contains(c),
    decreases parts.len(),
{
    if parts.len() == 0 {
    } else if parts.len() == 1 {
        assert(!parts[0].contains(c));
    } else {
        let head = parts.drop_last();
        assert(all_free_of(head, c)) by {
            assert forall|i: int| 0 <= i < head.len() implies !(#[trigger] head[i]).contains(
                c,
            ) by {
                assert(head[i] == parts[i]);
            }
        }
        lemma_join_free(head, sep, c);
        assert(!parts[parts.len() - 1].contains(c));
        lemma_contains_push(join(head, sep), sep, c);
        lemma_contains_add(join(head, sep).push(sep), parts.last(), c);
    }
}

/// The stored text of a mode whose texts hold no line feed: it holds none
/// either, and it holds `|`.
pub proof fn lemma_encode_line(m: Mode)
    requires
        mode_free_of(m, '\n'),
    ensures
        !encode(m).contains('\n'),
        encode(m).contains('|'),
{
    let parts = encode_segments(m);
    lemma_encode_segments_free(m, '\n');
    lemma_join_free(parts, '|', '\n');
    let head = join(parts.drop_last(), '|');
    assert(encode(m)[head.len() as int] == '|');
}

/// The stored text of a mode that can be saved is not changed by trimming:
/// it begins with `/` and does not end with white space.
pub proof fn lemma_encode_shape(m: Mode)
    requires
        is_storable(m),
    ensures
        trim(encode(m)) == encode(m),
{
    let parts = encode_segments(m);
    lemma_join_first(parts, '|');
    lemma_join_last(parts, '|');
    assert(!is_space('|'));
    assert(!is_space('/'));
    lemma_trim_nothing(encode(m));
}

/// The stored text of every mode, trimmed, is decoded to a mode: it has at
/// least two segments.
pub proof fn lemma_stored_text_is_a_mode(
    m: Mode,
    home: Seq<char>,
    prompts_dir: Seq<char>,
    default_threads: i32,
)
    ensures
        decode(trim(encode(m)), home, prompts_dir, default_threads) is Some,
{
    let parts = encode_segments(m);
    let head = join(parts.drop_last(), '|');
    assert(encode(m)[head.len() as int] == '|');
    assert(!is_space('|'));
    lemma_trim_keeps(encode(m), '|');
    lemma_split_shape(trim(encode(m)), '|');
}

/// A line that begins with `#` is no indexed assignment.
pub proof fn lemma_comment_is_no_entry(line: Seq<char>, base: Seq<char>)
    requires
        line.len() > 0,
        line[0] == '#',
    ensures
        !is_entry(line, base),
{
}

/// A line that assigns to `default_mode` is no saved mode.
pub proof fn lemma_default_is_no_entry(line: Seq<char>)
    requires
        defines(line, "default_mode"@),
    ensures
        !is_entry(line, "mode"@),
{
    reveal_strlit("default_mode");
    reveal_strlit("mode");
    let key = line_key(line);
    let prefix = "mode"@.push('_');
    if prefix.is_prefix_of(key) {
        assert(key.subrange(0, prefix.len() as int)[0] == prefix[0]);
    }
}

/// A line made of a key, ` =` and what follows is an assignment to that
/// key of what follows, cleaned. The key holds no `=`, begins with neither
/// white space nor `#`, and does not end with white space.
#[verifier::rlimit(40)]
pub proof fn lemma_assignment_line(key: Seq<char>, tail: Seq<char>)
    requires
        key.len() > 0,
        !key.contains('='),
        !is_space(key[0]),
        key[0] != '#',
        !is_space(key.last()),
    ensures
        !is_skipped(key + seq![' ', '='] + tail),
        (key + seq![' ', '='] + tail).contains('='),
        line_key(key + seq![' ', '='] + tail) == key,
        line_value(key + seq![' ', '='] + tail) == clean_value(tail),
{
    let line = key + seq![' ', '='] + tail;
    let at = key.len() as int + 1;
    assert forall|j: int| 0 <= j < at implies #[trigger] line[j] != '=' by {
        if j < key.len() {
            assert(line[j] == key[j]);
        }
    }
    assert(line[at] == '=');
    lemma_find_char_is(line, '=', at);
    lemma_find_char(line, '=');
    assert(line.take(at) =~= key.push(' '));
    assert(line.skip(at + 1) =~= tail);
    assert(is_space(' '));
    lemma_trim_push_space(key, ' ');
    lemma_trim_nothing(key);
    assert(line[0] == key[0]);
    assert(trim_start(line) == line);
}

/// A concatenation of three texts holds a character only where one of them
/// does.
pub proof fn lemma_contains_three(a: Seq<char>, b: Seq<char>, c: Seq<char>, x: char)
    requires
        !a.contains(x),
        !b.contains(x),
        !c.contains(x),
    ensures
        !(a + b + c).contains(x),
{
    lemma_contains_add(a, b, x);
    lemma_contains_add(a + b, c, x);
}

/// A text in double quotes behind a space is cleaned to the text, trimmed:
/// the one layer of quotes goes, whatever the text holds.
#[verifier::rlimit(40)]
pub proof fn lemma_quoted_value(enc: Seq<char>)
    ensures
        clean_value(seq![' ', '"'] + enc + seq!['"']) == trim(enc),
{
    let after = seq![' ', '"'] + enc + seq!['"'];
    let quoted = seq!['"'] + enc + seq!['"'];
    assert(is_space(' '));
    assert(!is_space('"'));
    assert(after.drop_first() =~= quoted);
    assert(quoted[0] == '"');
    assert(quoted.last() == '"');
    assert(trim_start(quoted) == quoted);
    assert(trim_start(after) == quoted);
    assert(trim_end(quoted) == quoted);
    assert(trim(after) == quoted);
    let open = enc + seq!['"'];
    assert(quoted.drop_first() =~= open);
    assert(open.last() == '"');
    assert(open.drop_last() =~= enc);
    assert(strip_one(quoted, '"') == enc);
}

/// The key `mode_<number>`: it holds neither `=` nor a line feed, stays as
/// it is when a space behind it is trimmed, and names the number.
#[verifier::rlimit(40)]
pub proof fn lemma_entry_key(number: nat)
    requires
        number <= usize::MAX,
    ensures
        ("mode_"@ + render_nat(number)).len() >= 6,
        ("mode_"@ + render_nat(number))[0] == 'm',
        !("mode_"@ + render_nat(number)).contains('='),
        !("mode_"@ + render_nat(number)).contains('\n'),
        trim(("mode_"@ + render_nat(number)).push(' ')) == "mode_"@ + render_nat(number),
        "mode"@.push('_').is_prefix_of("mode_"@ + render_nat(number)),
        parse_usize(("mode_"@ + render_nat(number)).skip(5)) == Some(number as usize),
{
    reveal_strlit("mode");
    reveal_strlit("mode_");
    let digits = render_nat(number);
    let key = "mode_"@ + digits;
    lemma_render_nat(number);
    lemma_parse_render_nat(number, usize::MAX as nat);
    assert forall|j: int| 0 <= j < key.len() implies #[trigger] key[j] != '=' && key[j] != '\n' by {
        if j >= 5 {
            assert(is_digit(digits[j - 5]));
        }
    }
    assert(is_space(' '));
    lemma_trim_push_space(key, ' ');
    assert(key[0] == 'm');
    assert(is_digit(key.last())) by {
        assert(key.last() == digits.last());
    }
    lemma_trim_nothing(key);
    assert("mode"@.push('_') =~= "mode_"@);
    assert(key.subrange(0, 5) =~= "mode_"@);
    assert(key.skip(5) =~= digits);
}

/// The field that stores a mode is read as the indexed assignment of the
/// mode's stored text, trimmed, under the mode's number. This holds for
/// every mode whose texts hold no line feed.
#[verifier::rlimit(40)]
pub proof fn lemma_entry_line(number: nat, m: Mode)
    requires
        mode_free_of(m, '\n'),
        number <= usize::MAX,
    ensures
        !entry_line(number, m).contains('\n'),
        is_entry(entry_line(number, m), "mode"@),
        indexed_key(entry_line(number, m), "mode"@) == Some(number as usize),
        line_value(entry_line(number, m)) == trim(encode(m)),
{
    reveal_strlit(" = \"");
    reveal_strlit("\"");
    reveal_strlit("mode");
    let enc = encode(m);
    let line = entry_line(number, m);
    let key = "mode_"@ + render_nat(number);
    let tail = seq![' ', '"'] + enc + seq!['"'];
    lemma_entry_key(number);
    lemma_render_nat(number);
    assert(!is_space(key.last())) by {
        assert(key.last() == render_nat(number).last());
        assert(is_digit(render_nat(number).last()));
    }
    lemma_encode_line(m);
    assert(!is_space('|'));
    lemma_trim_keeps(enc, '|');
    lemma_quoted_value(enc);
    assert(line =~= key + seq![' ', '='] + tail);
    lemma_assignment_line(key, tail);
    assert("mode"@.push('_').len() == 5);
    lemma_quoted_line_free(enc);
    lemma_contains_three(key, seq![' ', '='], tail, '\n');
}

/// A text in double quotes behind ` =` and a space holds no line feed where
/// the text holds none.
pub proof fn lemma_quoted_line_free(enc: Seq<char>)
    requires
        !enc.contains('\n'),
    ensures
        !(seq![' ', '"'] + enc + seq!['"']).contains('\n'),
        !seq![' ', '='].contains('\n'),
{
    let open = seq![' ', '"'];
    let close = seq!['"'];
    let assign = seq![' ', '='];
    if open.contains('\n') {
        let k = choose|k: int| 0 <= k < open.len() && open[k] == '\n';
        assert(open[k] == '\n');
    }
    if close.contains('\n') {
        let k = choose|k: int| 0 <= k < close.len() && close[k] == '\n';
        assert(close[k] == '\n');
    }
    if assign.contains('\n') {
        let k = choose|k: int| 0 <= k < assign.len() && assign[k] == '\n';
        assert(assign[k] == '\n');
    }
    lemma_contains_three(open, enc, close, '\n');
}

/// The comment above a stored mode is a line of its own and no indexed
/// assignment.
pub proof fn lemma_header_line(number: nat, m: Mode, base: Seq<char>)
    requires
        !m.name.contains('\n'),
        !m.description.contains('\n'),
    ensures
        !header_line(number, m).contains('\n'),
        !is_entry(header_line(number, m), base),
{
    reveal_strlit("# Mode ");
    reveal_strlit(" - ");
    let digits = render_nat(number);
    lemma_render_nat(number);
    let line = header_line(number, m);
    assert(line[0] == '#');
    lemma_comment_is_no_entry(line, base);
    assert(!"# Mode "@.contains('\n')) by {
        if "# Mode "@.contains('\n') {
            let k = choose|k: int| 0 <= k < "# Mode "@.len() && "# Mode "@[k] == '\n';
            assert("# Mode "@[k] == '\n');
        }
    }
    assert(!" - "@.contains('\n')) by {
        if " - "@.contains('\n') {
            let k = choose|k: int| 0 <= k < " - "@.len() && " - "@[k] == '\n';
            assert(" - "@[k] == '\n');
        }
    }
    assert(!digits.contains('\n')) by {
        if digits.contains('\n') {
            let k = choose|k: int| 0 <= k < digits.len() && digits[k] == '\n';
            assert(is_digit(digits[k]));
        }
    }
    lemma_contains_add("# Mode "@, digits, '\n');
    lemma_contains_add("# Mode "@ + digits, " - "@, '\n');
    lemma_contains_add("# Mode "@ + digits + " - "@, m.name, '\n');
    lemma_contains_add("# Mode "@ + digits + " - "@ + m.name, " - "@, '\n');
    lemma_contains_add("# Mode "@ + digits + " - "@ + m.name + " - "@, m.description, '\n');
}

/// The line that names the default mode is a line of its own. It assigns
/// the number to `default_mode`, and it is no saved mode.
#[verifier::rlimit(40)]
pub proof fn lemma_default_line(number: nat)
    ensures
        !default_line(number).contains('\n'),
        defines(default_line(number), "default_mode"@),
        line_value(default_line(number)) == render_nat(number),
        !is_entry(default_line(number), "mode"@),
{
    reveal_strlit("default_mode = ");
    reveal_strlit("default_mode");
    let name = "default_mode"@;
    let digits = render_nat(number);
    let tail = seq![' '] + digits;
    let line = default_line(number);
    lemma_render_nat(number);
    assert(line =~= name + seq![' ', '='] + tail);
    assert(!name.contains('=') && !name.contains('\n')) by {
        if name.contains('=') {
            let k = choose|k: int| 0 <= k < name.len() && name[k] == '=';
            assert(name[k] == '=');
        }
        if name.contains('\n') {
            let k = choose|k: int| 0 <= k < name.len() && name[k] == '\n';
            assert(name[k] == '\n');
        }
    }
    lemma_assignment_line(name, tail);
    lemma_spaced_digits(digits);
    lemma_default_is_no_entry(line);
    assert(!seq![' ', '='].contains('\n')) by {
        if seq![' ', '='].contains('\n') {
            let k = choose|k: int| 0 <= k < 2 && seq![' ', '='][k] == '\n';
            assert(seq![' ', '='][k] == '\n');
        }
    }
    lemma_contains_three(name, seq![' ', '='], tail, '\n');
}

/// Digits behind a space are cleaned to the digits, and hold no line feed.
pub proof fn lemma_spaced_digits(digits: Seq<char>)
    requires
        digits.len() > 0,
        crate::number::all_digits(digits),
    ensures
        clean_value(seq![' '] + digits) == digits,
        !(seq![' '] + digits).contains('\n'),
{
    let after = seq![' '] + digits;
    assert(is_space(' '));
    assert(after.drop_first() =~= digits);
    assert(is_digit(digits[0]));
    assert(is_digit(digits[digits.len() - 1]));
    assert(trim_start(digits) == digits);
    assert(trim_start(after) == digits);
    assert(trim_end(digits) == digits);
    assert(trim(after) == digits);
    assert(strip_one(digits, '"') == digits);
    if after.contains('\n') {
        let k = choose|k: int| 0 <= k < after.len() && after[k] == '\n';
        if k > 0 {
            assert(is_digit(digits[k - 1]));
        }
    }
}


/// A line without its trailing carriage return is an indexed assignment
/// exactly when the line is, with the same number and the same value.
pub proof fn lemma_strip_cr_entry(line: Seq<char>, base: Seq<char>)
    ensures
        is_entry(strip_cr(line), base) == is_entry(line, base),
        is_entry(line, base) ==> indexed_key(strip_cr(line), base) == indexed_key(line, base)
            && line_value(strip_cr(line)) == line_value(line),
{
    if line.len() > 0 && line.last() == '\r' {
        let y = line.drop_last();
        assert(line =~= y.push('\r'));
        lemma_trim_push_space(y, '\r');
        lemma_contains_push(y, '\r', '=');
        if trim_start(y).len() > 0 {
            assert(trim_start(line)[0] == trim_start(y)[0]);
        }
        assert(is_skipped(line) == is_skipped(y));
        if y.contains('=') {
            lemma_find_char(y, '=');
            let f = find_char(y, '=');
            assert forall|j: int| 0 <= j < f implies #[trigger] line[j] != '=' by {
                assert(line[j] == y[j]);
            }
            assert(line[f] == y[f]);
            lemma_find_char_is(line, '=', f);
            assert(line.take(f) =~= y.take(f));
            assert(line.skip(f + 1) =~= y.skip(f + 1).push('\r'));
            lemma_trim_push_space(y.skip(f + 1), '\r');
        }
    }
}

/// The indexed assignments of two runs of lines, one behind the other, are
/// those of the first followed by those of the second.
pub proof fn lemma_entries_add(a: Seq<Seq<char>>, b: Seq<Seq<char>>, base: Seq<char>)
    ensures
        entries(a + b, base) == entries(a, base) + entries(b, base),
    decreases b.len(),
{
    if b.len() == 0 {
        assert(a + b =~= a);
        assert(entries(a, base) + entries(b, base) =~= entries(a, base));
    } else {
        lemma_entries_add(a, b.drop_last(), base);
        assert((a + b).drop_last() =~= a + b.drop_last());
        assert((a + b).last() == b.last());
        if is_entry(b.last(), base) {
            let e = (indexed_key(b.last(), base)->0, line_value(b.last()));
            assert((entries(a, base) + entries(b.drop_last(), base)).push(e) =~= entries(a, base)
                + entries(b.drop_last(), base).push(e));
        }
    }
}

/// The indexed assignments of a single line.
pub proof fn lemma_entries_one(line: Seq<char>, base: Seq<char>)
    ensures
        entries(seq![line], base) == if is_entry(line, base) {
            seq![(indexed_key(line, base)->0, line_value(line))]
        } else {
            Seq::<(usize, Seq<char>)>::empty()
        },
{
    let one = seq![line];
    assert(one.drop_last() =~= Seq::<Seq<char>>::empty());
    assert(entries(one.drop_last(), base) =~= Seq::<(usize, Seq<char>)>::empty());
    assert(one.last() == line);
    if is_entry(line, base) {
        let e = (indexed_key(line, base)->0, line_value(line));
        assert(Seq::<(usize, Seq<char>)>::empty().push(e) =~= seq![e]);
    }
}

/// Carriage returns at the ends of lines do not change the indexed
/// assignments.
pub proof fn lemma_entries_strip_cr(a: Seq<Seq<char>>, base: Seq<char>)
    ensures
        entries(a.map_values(|l: Seq<char>| strip_cr(l)), base) == entries(a, base),
    decreases a.len(),
{
    let f = |l: Seq<char>| strip_cr(l);
    if a.len() == 0 {
        assert(a.map_values(f) =~= a);
    } else {
        lemma_entries_strip_cr(a.drop_last(), base);
        assert(a.map_values(f).drop_last() =~= a.drop_last().map_values(f));
        assert(a.map_values(f).last() == strip_cr(a.last()));
        lemma_strip_cr_entry(a.last(), base);
    }
}

/// An empty line is no indexed assignment.
pub proof fn lemma_empty_line_is_no_entry(base: Seq<char>)
    ensures
        !is_entry(Seq::<char>::empty(), base),
{
}

/// The indexed assignments of a text are those of its pieces between line
/// feeds.
pub proof fn lemma_entries_of_pieces(s: Seq<char>, base: Seq<char>)
    ensures
        entries(lines(s), base) == entries(split(s, '\n'), base),
{
    let f = |l: Seq<char>| strip_cr(l);
    let pieces = split(s, '\n');
    lemma_split_shape(s, '\n');
    let head = pieces.drop_last();
    let tail = pieces.last();
    assert(pieces =~= head + seq![tail]);
    lemma_entries_add(head, seq![tail], base);
    lemma_entries_strip_cr(head, base);
    lemma_entries_one(tail, base);
    if tail.len() == 0 {
        assert(tail =~= Seq::<char>::empty());
        assert(entries(head, base) + Seq::<(usize, Seq<char>)>::empty() =~= entries(head, base));
    } else {
        assert(head.map_values(f).push(tail) =~= head.map_values(f) + seq![tail]);
        lemma_entries_add(head.map_values(f), seq![tail], base);
    }
}

/// A line behind a text: the pieces of the text, a line feed and a line
/// without line feed are the pieces of the text and the line.
pub proof fn lemma_split_append_line(a: Seq<char>, line: Seq<char>)
    requires
        !line.contains('\n'),
    ensures
        split(a + seq!['\n'] + line, '\n') == split(a, '\n').push(line),
{
    assert(a + seq!['\n'] =~= a.push('\n'));
    lemma_split_append_sep(a, '\n');
    lemma_split_append_plain(a.push('\n'), line, '\n');
    let p = split(a, '\n').push(Seq::<char>::empty());
    assert(Seq::<char>::empty() + line =~= line);
    assert(p.update(p.len() - 1, line) =~= split(a, '\n').push(line));
}

/// Every mode that the stored texts give is in canonical form, where the
/// directories of relative paths are absolute and hold no `|`, and the
/// prompt directory holds no `=`.
pub proof fn lemma_decode_all_canonical(
    values: Seq<Seq<char>>,
    home: Seq<char>,
    prompts_dir: Seq<char>,
    default_threads: i32,
)
    requires
        is_base_dir(home),
        is_base_dir(prompts_dir),
        !prompts_dir.contains('='),
    ensures
        forall|i: int|
            0 <= i < decode_all(values, home, prompts_dir, default_threads).len() ==> is_canonical(
                #[trigger] decode_all(values, home, prompts_dir, default_threads)[i],
            ),
    decreases values.len(),
{
    if values.len() > 0 {
        let before = decode_all(values.drop_last(), home, prompts_dir, default_threads);
        let all = decode_all(values, home, prompts_dir, default_threads);
        lemma_decode_all_canonical(values.drop_last(), home, prompts_dir, default_threads);
        if decode(values.last(), home, prompts_dir, default_threads) is Some {
            lemma_decode_is_canonical(values.last(), home, prompts_dir, default_threads);
        }
        assert forall|i: int| 0 <= i < all.len() implies is_canonical(#[trigger] all[i]) by {
            if i < before.len() {
                assert(all[i] == before[i]);
            }
        }
    }
}

/// Every saved mode comes out of the store in canonical form: with absolute
/// paths, and such that encoding and decoding it again changes nothing.
pub proof fn lemma_saved_modes_are_canonical(
    text: Seq<char>,
    home: Seq<char>,
    prompts_dir: Seq<char>,
    default_threads: i32,
)
    requires
        is_base_dir(home),
        is_base_dir(prompts_dir),
        !prompts_dir.contains('='),
    ensures
        forall|i: int|
            0 <= i < saved_modes(text, home, prompts_dir, default_threads).len() ==> is_canonical(
                #[trigger] saved_modes(text, home, prompts_dir, default_threads)[i],
            ),
{
    lemma_decode_all_canonical(
        crate::field::indexed_values(text, "mode"@),
        home,
        prompts_dir,
        default_threads,
    );
}

/// The indexed assignments of a run of lines with one more line.
pub proof fn lemma_entries_push(a: Seq<Seq<char>>, line: Seq<char>, base: Seq<char>)
    ensures
        entries(a.push(line), base) == if is_entry(line, base) {
            entries(a, base).push((indexed_key(line, base)->0, line_value(line)))
        } else {
            entries(a, base)
        },
{
    assert(a.push(line).drop_last() =~= a);
    assert(a.push(line).last() == line);
}

/// Inserting into an ascending sequence places the entry somewhere and
/// moves no other.
pub proof fn lemma_insert_position(s: Seq<(usize, Seq<char>)>, e: (usize, Seq<char>)) -> (p: int)
    ensures
        0 <= p <= s.len(),
        insert_sorted(s, e) == s.insert(p, e),
    decreases s.len(),
{
    if s.len() == 0 || s.last().0 <= e.0 {
        assert(s.insert(s.len() as int, e) =~= s.push(e));
        s.len() as int
    } else {
        let p = lemma_insert_position(s.drop_last(), e);
        assert(s.drop_last().insert(p, e).push(s.last()) =~= s.insert(p, e));
        p
    }
}

/// The values of a sequence with one more entry.
pub proof fn lemma_values_insert(s: Seq<(usize, Seq<char>)>, p: int, e: (usize, Seq<char>))
    requires
        0 <= p <= s.len(),
    ensures
        values_of(s.insert(p, e)) == values_of(s).insert(p, e.1),
{
    assert(values_of(s.insert(p, e)) =~= values_of(s).insert(p, e.1));
}

/// One more stored text that gives a mode adds that mode to the modes that
/// the others give, and moves none of them.
pub proof fn lemma_decode_all_insert(
    values: Seq<Seq<char>>,
    p: int,
    v: Seq<char>,
    home: Seq<char>,
    prompts_dir: Seq<char>,
    default_threads: i32,
) -> (q: int)
    requires
        0 <= p <= values.len(),
        decode(v, home, prompts_dir, default_threads) is Some,
    ensures
        0 <= q <= decode_all(values, home, prompts_dir, default_threads).len(),
        decode_all(values.insert(p, v), home, prompts_dir, default_threads) == decode_all(
            values,
            home,
            prompts_dir,
            default_threads,
        ).insert(q, decode(v, home, prompts_dir, default_threads)->0),
    decreases values.len(),
{
    let m = decode(v, home, prompts_dir, default_threads)->0;
    let all = decode_all(values, home, prompts_dir, default_threads);
    if p == values.len() {
        assert(values.insert(p, v) =~= values.push(v));
        assert(values.push(v).drop_last() =~= values);
        assert(all.insert(all.len() as int, m) =~= all.push(m));
        all.len() as int
    } else {
        let head = values.drop_last();
        let q = lemma_decode_all_insert(head, p, v, home, prompts_dir, default_threads);
        let before = decode_all(head, home, prompts_dir, default_threads);
        assert(values.insert(p, v).drop_last() =~= head.insert(p, v));
        assert(values.insert(p, v).last() == values.last());
        match decode(values.last(), home, prompts_dir, default_threads) {
            Some(x) => {
                assert(before.insert(q, m).push(x) =~= before.push(x).insert(q, m));
            },
            None => {},
        }
        q
    }
}

/// Leaving out the lines that assign to `default_mode` leaves the saved
/// modes as they are.
pub proof fn lemma_without_default_entries(a: Seq<Seq<char>>)
    ensures
        entries(without_default(a), "mode"@) == entries(a, "mode"@),
    decreases a.len(),
{
    if a.len() > 0 {
        lemma_without_default_entries(a.drop_last());
        if defines(a.last(), "default_mode"@) {
            lemma_default_is_no_entry(a.last());
        } else {
            lemma_entries_push(without_default(a.drop_last()), a.last(), "mode"@);
        }
    }
}

/// The lines that are kept hold no character that the lines did not hold.
pub proof fn lemma_without_default_free(a: Seq<Seq<char>>, c: char)
    requires
        all_free_of(a, c),
    ensures
        all_free_of(without_default(a), c),
    decreases a.len(),
{
    if a.len() > 0 {
        let head = a.drop_last();
        assert(all_free_of(head, c)) by {
            assert forall|i: int| 0 <= i < head.len() implies !(#[trigger] head[i]).contains(
                c,
            ) by {
                assert(head[i] == a[i]);
            }
        }
        lemma_without_default_free(head, c);
        assert(!a[a.len() - 1].contains(c));
    }
}

/// No line holds a line feed.
pub proof fn lemma_lines_free(s: Seq<char>)
    ensures
        all_free_of(lines(s), '\n'),
{
    let pieces = split(s, '\n');
    lemma_split_shape(s, '\n');
    let all = lines(s);
    assert forall|i: int| 0 <= i < all.len() implies !(#[trigger] all[i]).contains('\n') by {
        let piece = pieces[i];
        assert(!piece.contains('\n'));
        if i < pieces.len() - 1 {
            assert(all[i] == strip_cr(piece));
            if strip_cr(piece).contains('\n') {
                let k = choose|k: int| 0 <= k < strip_cr(piece).len() && strip_cr(piece)[k] == '\n';
                assert(piece[k] == '\n');
            }
        } else {
            assert(all[i] == piece);
        }
    }
}

/// The saved modes of the lines that are kept when a new default is
/// written, joined by line feeds, are the saved modes of the text.
pub proof fn lemma_kept_entries(text: Seq<char>)
    ensures
        entries(split(join(without_default(lines(text)), '\n'), '\n'), "mode"@) == entries(
            lines(text),
            "mode"@,
        ),
{
    let kept = without_default(lines(text));
    lemma_lines_free(text);
    lemma_without_default_free(lines(text), '\n');
    lemma_without_default_entries(lines(text));
    if kept.len() >= 1 {
        lemma_split_join(kept, '\n');
    } else {
        let one = split(Seq::<char>::empty(), '\n');
        assert(one =~= seq![Seq::<char>::empty()]);
        lemma_entries_one(Seq::<char>::empty(), "mode"@);
        assert(entries(kept, "mode"@) =~= Seq::<(usize, Seq<char>)>::empty());
    }
}

/// The number of the next saved mode fits the machine's word, for a text
/// that does.
pub proof fn lemma_next_number_fits(text: Seq<char>)
    requires
        text.len() <= usize::MAX,
    ensures
        next_number(text) <= usize::MAX,
{
    reveal_strlit("mode_");
    lemma_lines_total(text);
    lemma_count_mode_lines(lines(text));
    assert(2 * count_mode_lines(lines(text)) <= text.len() + 1);
    assert(usize::MAX >= 3);
}

/// The lines of a text with one more saved mode hold the indexed
/// assignments of the text and, behind them, the new mode's.
#[verifier::rlimit(40)]
pub proof fn lemma_with_mode_entries(text: Seq<char>, m: Mode, make_default: bool)
    requires
        mode_free_of(m, '\n'),
        text.len() <= usize::MAX,
    ensures
        entries(lines(with_mode(text, m, make_default)), "mode"@) == entries(
            lines(text),
            "mode"@,
        ).push((next_number(text) as usize, trim(encode(m)))),
{
    reveal_strlit("\n");
    let base = "mode"@;
    let number = next_number(text);
    lemma_next_number_fits(text);
    let header = header_line(number, m);
    let entry = entry_line(number, m);
    let feed = seq!['\n'];
    let empty = Seq::<char>::empty();
    assert("\n"@ =~= feed);
    lemma_header_line(number, m, base);
    lemma_entry_line(number, m);
    lemma_default_line(number);
    lemma_empty_line_is_no_entry(base);
    let new_text = with_mode(text, m, make_default);
    let kept = if make_default {
        join(without_default(lines(text)), '\n') + feed + default_line(number) + feed
    } else {
        text
    };
    assert(kept =~= if make_default {
        join(without_default(lines(text)), '\n') + default_block(number)
    } else {
        text
    });
    let with_header = kept + feed + header;
    let with_entry = with_header + feed + entry;
    assert(new_text =~= with_entry.push('\n'));
    lemma_split_append_line(kept, header);
    lemma_split_append_line(with_header, entry);
    lemma_split_append_sep(with_entry, '\n');
    let pieces = split(kept, '\n');
    assert(split(new_text, '\n') == pieces.push(header).push(entry).push(empty));
    lemma_entries_push(pieces, header, base);
    lemma_entries_push(pieces.push(header), entry, base);
    lemma_entries_push(pieces.push(header).push(entry), empty, base);
    lemma_entries_of_pieces(new_text, base);
    assert(entries(lines(new_text), base) == entries(pieces, base).push(
        (number as usize, trim(encode(m))),
    ));
    if make_default {
        let joined = join(without_default(lines(text)), '\n');
        let with_default = joined + feed + default_line(number);
        assert(kept =~= with_default.push('\n'));
        lemma_split_append_line(joined, default_line(number));
        lemma_split_append_sep(with_default, '\n');
        let old = split(joined, '\n');
        assert(pieces == old.push(default_line(number)).push(empty));
        lemma_entries_push(old, default_line(number), base);
        lemma_entries_push(old.push(default_line(number)), empty, base);
        lemma_kept_entries(text);
    } else {
        lemma_entries_of_pieces(text, base);
    }
}

/// Saving a mode and reading the store again gives exactly one more mode
/// than before, and the modes that were there keep their order. The new
/// mode is what the stored text, trimmed, decodes to, and its field is
/// placed by its number, behind every field whose number is not greater.
///
/// This holds for every mode whose texts hold no line feed, whatever else
/// they hold.
pub proof fn lemma_saved_mode_adds_one(
    text: Seq<char>,
    m: Mode,
    make_default: bool,
    home: Seq<char>,
    prompts_dir: Seq<char>,
    default_threads: i32,
)
    requires
        mode_free_of(m, '\n'),
        text.len() <= usize::MAX,
    ensures
        indexed_entries(with_mode(text, m, make_default), "mode"@) == insert_sorted(
            indexed_entries(text, "mode"@),
            (next_number(text) as usize, trim(encode(m))),
        ),
        decode(trim(encode(m)), home, prompts_dir, default_threads) is Some,
        saved_modes(with_mode(text, m, make_default), home, prompts_dir, default_threads).len()
            == saved_modes(text, home, prompts_dir, default_threads).len() + 1,
        exists|k: int|
            0 <= k <= saved_modes(text, home, prompts_dir, default_threads).len() && saved_modes(
                with_mode(text, m, make_default),
                home,
                prompts_dir,
                default_threads,
            ) == #[trigger] saved_modes(text, home, prompts_dir, default_threads).insert(
                k,
                decode(trim(encode(m)), home, prompts_dir, default_threads)->0,
            ),
{
    reveal_strlit("mode");
    let base = "mode"@;
    let new_text = with_mode(text, m, make_default);
    let stored = trim(encode(m));
    let e = (next_number(text) as usize, stored);
    let found = entries(lines(text), base);
    lemma_with_mode_entries(text, m, make_default);
    assert(found.push(e).drop_last() =~= found);
    assert(indexed_entries(new_text, base) == insert_sorted(sort_entries(found), e));
    let sorted = sort_entries(found);
    let p = lemma_insert_position(sorted, e);
    lemma_values_insert(sorted, p, e);
    lemma_stored_text_is_a_mode(m, home, prompts_dir, default_threads);
    let q = lemma_decode_all_insert(
        values_of(sorted),
        p,
        stored,
        home,
        prompts_dir,
        default_threads,
    );
    let before = saved_modes(text, home, prompts_dir, default_threads);
    let read = decode(stored, home, prompts_dir, default_threads)->0;
    assert(saved_modes(new_text, home, prompts_dir, default_threads) == before.insert(q, read));
}

/// Saving a mode and reading the store again gives exactly one more mode
/// than before: the modes that were there, in their order, and among them
/// the mode that was saved, with every field as it was given. Its field is
/// placed by its number, behind every field whose number is not greater.
///
/// This holds for a mode that can be stored: one in canonical form, without
/// line feeds in its texts, and with a description that does not end with
/// white space.
pub proof fn lemma_saved_mode_is_read_back(
    text: Seq<char>,
    m: Mode,
    make_default: bool,
    home: Seq<char>,
    prompts_dir: Seq<char>,
    default_threads: i32,
)
    requires
        is_storable(m),
        text.len() <= usize::MAX,
    ensures
        indexed_entries(with_mode(text, m, make_default), "mode"@) == insert_sorted(
            indexed_entries(text, "mode"@),
            (next_number(text) as usize, encode(m)),
        ),
        saved_modes(with_mode(text, m, make_default), home, prompts_dir, default_threads).len()
            == saved_modes(text, home, prompts_dir, default_threads).len() + 1,
        exists|k: int|
            0 <= k <= saved_modes(text, home, prompts_dir, default_threads).len() && saved_modes(
                with_mode(text, m, make_default),
                home,
                prompts_dir,
                default_threads,
            ) == #[trigger] saved_modes(text, home, prompts_dir, default_threads).insert(k, m),
{
    lemma_encode_shape(m);
    lemma_decode_encode(m, home, prompts_dir, default_threads);
    lemma_saved_mode_adds_one(text, m, make_default, home, prompts_dir, default_threads);
}

/// A line without its trailing carriage return assigns to a key exactly
/// when the line does.
pub proof fn lemma_strip_cr_defines(line: Seq<char>, name: Seq<char>)
    ensures
        defines(strip_cr(line), name) == defines(line, name),
{
    if line.len() > 0 && line.last() == '\r' {
        let y = line.drop_last();
        assert(line =~= y.push('\r'));
        lemma_trim_push_space(y, '\r');
        lemma_contains_push(y, '\r', '=');
        if trim_start(y).len() > 0 {
            assert(trim_start(line)[0] == trim_start(y)[0]);
        }
        assert(is_skipped(line) == is_skipped(y));
        if y.contains('=') {
            lemma_find_char(y, '=');
            let f = find_char(y, '=');
            assert forall|j: int| 0 <= j < f implies #[trigger] line[j] != '=' by {
                assert(line[j] == y[j]);
            }
            assert(line[f] == y[f]);
            lemma_find_char_is(line, '=', f);
            assert(line.take(f) =~= y.take(f));
        }
    }
}

/// Behind lines of which none assigns to a key, the first value of the key
/// is that of the lines that follow.
pub proof fn lemma_first_value_skips(a: Seq<Seq<char>>, b: Seq<Seq<char>>, name: Seq<char>)
    requires
        forall|i: int| 0 <= i < a.len() ==> !defines(#[trigger] a[i], name),
    ensures
        first_value(a + b, name) == first_value(b, name),
    decreases a.len(),
{
    if a.len() == 0 {
        assert(a + b =~= b);
    } else {
        let rest = a.drop_first();
        assert forall|i: int| 0 <= i < rest.len() implies !defines(#[trigger] rest[i], name) by {
            assert(rest[i] == a[i + 1]);
        }
        lemma_first_value_skips(rest, b, name);
        assert((a + b)[0] == a[0]);
        assert((a + b).drop_first() =~= rest + b);
    }
}

/// None of the lines that are kept when a new default is written assigns
/// to `default_mode`.
pub proof fn lemma_without_default_none(a: Seq<Seq<char>>)
    ensures
        forall|i: int|
            0 <= i < without_default(a).len() ==> !defines(
                #[trigger] without_default(a)[i],
                "default_mode"@,
            ),
    decreases a.len(),
{
    if a.len() > 0 {
        let head = without_default(a.drop_last());
        lemma_without_default_none(a.drop_last());
        assert forall|i: int| 0 <= i < without_default(a).len() implies !defines(
            #[trigger] without_default(a)[i],
            "default_mode"@,
        ) by {
            if i < head.len() {
                assert(without_default(a)[i] == head[i]);
            }
        }
    }
}

/// A mode that is saved as the new default is the default that is read
/// afterwards: whatever the text held, the field `default_mode` of the new
/// text names the number under which the mode was saved.
#[verifier::rlimit(40)]
pub proof fn lemma_new_default_is_read_back(text: Seq<char>, m: Mode)
    requires
        text.len() <= usize::MAX,
    ensures
        default_mode(with_mode(text, m, true)) == Some(next_number(text) as usize),
{
    reveal_strlit("\n");
    reveal_strlit("default_mode");
    let f = |l: Seq<char>| strip_cr(l);
    let name = "default_mode"@;
    let number = next_number(text);
    lemma_next_number_fits(text);
    lemma_parse_render_nat(number, usize::MAX as nat);
    lemma_render_nat(number);
    let feed = seq!['\n'];
    assert("\n"@ =~= feed);
    let kept_lines = without_default(lines(text));
    let joined = join(kept_lines, '\n');
    let line = default_line(number);
    lemma_default_line(number);
    let with_default = joined + feed + line;
    let new_text = with_mode(text, m, true);
    assert(new_text =~= with_default.push('\n') + mode_block(number, m));
    lemma_lines_add(with_default, mode_block(number, m));
    // The lines up to the new default.
    lemma_split_append_line(joined, line);
    lemma_split_append_sep(with_default, '\n');
    let old = split(joined, '\n');
    lemma_split_shape(joined, '\n');
    let pieces = old.push(line).push(Seq::<char>::empty());
    assert(pieces.drop_last() =~= old.push(line));
    assert(is_digit(line.last())) by {
        assert(line.last() == render_nat(number).last());
    }
    assert(old.push(line).map_values(f) =~= old.map_values(f).push(line));
    let before = old.map_values(f);
    assert(lines(with_default.push('\n')) == before.push(line));
    // None of the lines before it assigns to the key.
    lemma_lines_free(text);
    lemma_without_default_free(lines(text), '\n');
    lemma_without_default_none(lines(text));
    if kept_lines.len() >= 1 {
        lemma_split_join(kept_lines, '\n');
    } else {
        assert(old =~= seq![Seq::<char>::empty()]);
    }
    assert forall|i: int| 0 <= i < before.len() implies !defines(#[trigger] before[i], name) by {
        lemma_strip_cr_defines(old[i], name);
        if kept_lines.len() >= 1 {
            assert(old[i] == kept_lines[i]);
        }
    }
    let rest = seq![line] + lines(mode_block(number, m));
    assert(before.push(line) + lines(mode_block(number, m)) =~= before + rest);
    lemma_first_value_skips(before, rest, name);
    assert(rest[0] == line);
    assert(first_value(rest, name) == line_value(line));
}

} // verus!
