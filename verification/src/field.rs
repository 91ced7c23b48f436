//! The field reader: scalar and indexed lookup in a configuration text.
//!
//! A configuration text is a sequence of lines. A line is blank, a comment
//! (its first character after white space is `#`), or an assignment
//! `key = value`. An assignment is cut at its first `=`. The key is what
//! stands before it, trimmed. The value is what stands after it, trimmed,
//! then without one double quote at each end, then trimmed once more.

use vstd::prelude::*;
use crate::text::{views, string_views, chars_of, string_of, slice_of, same_chars, has_prefix};
use crate::trim::{trim, trim_start, strip_one, trim_chars, strip_one_chars, lemma_trim_shape};
use crate::split::{find_char, find_in, lines, lines_of, lemma_find_char};
use crate::number::{parse_usize, parse_usize_chars};

verus! {

/// Whether a line is blank or a comment.
pub open spec fn is_skipped(line: Seq<char>) -> bool {
    let t = trim_start(line);
    t.len() == 0 || t[0] == '#'
}

/// The key of an assignment: what stands before the first `=`, trimmed.
pub open spec fn line_key(line: Seq<char>) -> Seq<char> {
    trim(line.take(find_char(line, '=')))
}

/// A raw value without surrounding white space, then without one layer of
/// surrounding double quotes (at most one quote from each end), then
/// without the white space that the quotes held.
pub open spec fn clean_value(raw: Seq<char>) -> Seq<char> {
    trim(strip_one(trim(raw), '"'))
}

/// The value of an assignment: what stands after the first `=`, cleaned.
pub open spec fn line_value(line: Seq<char>) -> Seq<char> {
    clean_value(line.skip(find_char(line, '=') + 1))
}

/// Whether a line assigns to the key `name`.
pub open spec fn defines(line: Seq<char>, name: Seq<char>) -> bool {
    !is_skipped(line) && line.contains('=') && line_key(line) == name
}

/// The value of the first line that assigns to `name`; empty where no line
/// does.
pub open spec fn first_value(lines: Seq<Seq<char>>, name: Seq<char>) -> Seq<char>
    decreases lines.len(),
{
    if lines.len() == 0 {
        Seq::<char>::empty()
    } else if defines(lines[0], name) {
        line_value(lines[0])
    } else {
        first_value(lines.drop_first(), name)
    }
}

/// The scalar value of the field `name` in a configuration text: the value
/// of the first assignment to `name`. It is empty where the name is empty,
/// where no line assigns to it, and where the first that does has an empty
/// value.
pub open spec fn field_value(text: Seq<char>, name: Seq<char>) -> Seq<char> {
    if name.len() == 0 {
        Seq::<char>::empty()
    } else {
        first_value(lines(text), name)
    }
}

/// The number of an indexed assignment: where the line assigns to a key
/// made of `base`, `_` and a number, that number.
pub open spec fn indexed_key(line: Seq<char>, base: Seq<char>) -> Option<usize> {
    let prefix = base.push('_');
    let key = line_key(line);
    if !is_skipped(line) && line.contains('=') && prefix.is_prefix_of(key) {
        parse_usize(key.skip(prefix.len() as int))
    } else {
        None
    }
}

/// Whether a line is an indexed assignment to `base` with a value that is
/// not empty.
pub open spec fn is_entry(line: Seq<char>, base: Seq<char>) -> bool {
    indexed_key(line, base) is Some && line_value(line).len() > 0
}

/// The indexed assignments to `base` among the lines, each as its number and
/// its value, in the order of the lines.
pub open spec fn entries(lines: Seq<Seq<char>>, base: Seq<char>) -> Seq<(usize, Seq<char>)>
    decreases lines.len(),
{
    if lines.len() == 0 {
        Seq::<(usize, Seq<char>)>::empty()
    } else {
        let before = entries(lines.drop_last(), base);
        if is_entry(lines.last(), base) {
            before.push((indexed_key(lines.last(), base)->0, line_value(lines.last())))
        } else {
            before
        }
    }
}

/// An ascending sequence with one more entry, placed behind every entry
/// whose number is not greater.
pub open spec fn insert_sorted(s: Seq<(usize, Seq<char>)>, e: (usize, Seq<char>)) -> Seq<
    (usize, Seq<char>),
>
    decreases s.len(),
{
    if s.len() == 0 || s.last().0 <= e.0 {
        s.push(e)
    } else {
        insert_sorted(s.drop_last(), e).push(s.last())
    }
}

/// The entries in ascending order of their numbers; entries with the same
/// number keep their order.
pub open spec fn sort_entries(s: Seq<(usize, Seq<char>)>) -> Seq<(usize, Seq<char>)>
    decreases s.len(),
{
    if s.len() == 0 {
        s
    } else {
        insert_sorted(sort_entries(s.drop_last()), s.last())
    }
}

/// The entries with the number `k`, in order.
pub open spec fn with_number(s: Seq<(usize, Seq<char>)>, k: usize) -> Seq<(usize, Seq<char>)>
    decreases s.len(),
{
    if s.len() == 0 {
        s
    } else if s.last().0 == k {
        with_number(s.drop_last(), k).push(s.last())
    } else {
        with_number(s.drop_last(), k)
    }
}

/// The values of the entries, in order.
pub open spec fn values_of(s: Seq<(usize, Seq<char>)>) -> Seq<Seq<char>> {
    Seq::new(s.len(), |i: int| s[i].1)
}

/// The indexed assignments to `base` in a configuration text, in ascending
/// order of their numbers. There are none where `base` is empty.
pub open spec fn indexed_entries(text: Seq<char>, base: Seq<char>) -> Seq<(usize, Seq<char>)> {
    if base.len() == 0 {
        Seq::<(usize, Seq<char>)>::empty()
    } else {
        sort_entries(entries(lines(text), base))
    }
}

/// The values of the fields `base_<number>` in a configuration text, in
/// ascending order of the numbers.
pub open spec fn indexed_values(text: Seq<char>, base: Seq<char>) -> Seq<Seq<char>> {
    values_of(indexed_entries(text, base))
}

/// Whether the numbers of the entries never decrease.
pub open spec fn is_ascending(s: Seq<(usize, Seq<char>)>) -> bool {
    forall|i: int, j: int| 0 <= i <= j < s.len() ==> (#[trigger] s[i]).0 <= (#[trigger] s[j]).0
}

/// The views of a vector of numbered texts.
pub open spec fn entry_views(v: Seq<(usize, Vec<char>)>) -> Seq<(usize, Seq<char>)> {
    Seq::new(v.len(), |i: int| (v[i].0, v[i].1@))
}

/// Inserting into an ascending sequence places the entry at the index behind
/// which every number is greater and before which none is.
pub proof fn lemma_insert_sorted_at(s: Seq<(usize, Seq<char>)>, e: (usize, Seq<char>), p: int)
    requires
        0 <= p <= s.len(),
        forall|j: int| p <= j < s.len() ==> (#[trigger] s[j]).0 > e.0,
        p > 0 ==> s[p - 1].0 <= e.0,
    ensures
        insert_sorted(s, e) == s.insert(p, e),
    decreases s.len() - p,
{
    if p == s.len() {
        assert(s.insert(p, e) =~= s.push(e));
    } else {
        assert(s.last().0 > e.0);
        let t = s.drop_last();
        assert forall|j: int| p <= j < t.len() implies (#[trigger] t[j]).0 > e.0 by {
            assert(t[j] == s[j]);
        }
        lemma_insert_sorted_at(t, e, p);
        assert(t.insert(p, e).push(s.last()) =~= s.insert(p, e));
    }
}

/// Inserting into an ascending sequence keeps it ascending, and adds the
/// entry to what it holds.
pub proof fn lemma_insert_sorted(s: Seq<(usize, Seq<char>)>, e: (usize, Seq<char>))
    requires
        is_ascending(s),
    ensures
        is_ascending(insert_sorted(s, e)),
        insert_sorted(s, e).len() == s.len() + 1,
        insert_sorted(s, e).to_multiset() == s.to_multiset().insert(e),
    decreases s.len(),
{
    broadcast use vstd::seq_lib::group_to_multiset_ensures;

    if s.len() == 0 || s.last().0 <= e.0 {
        let r = s.push(e);
        assert forall|i: int, j: int| 0 <= i <= j < r.len() implies (#[trigger] r[i]).0 <= (
        #[trigger] r[j]).0 by {
            if j == s.len() {
                if i < s.len() {
                    assert(s[i].0 <= s[s.len() - 1].0);
                }
            } else {
                assert(s[i].0 <= s[j].0);
            }
        }
    } else {
        let t = s.drop_last();
        assert(is_ascending(t)) by {
            assert forall|i: int, j: int| 0 <= i <= j < t.len() implies (#[trigger] t[i]).0 <= (
            #[trigger] t[j]).0 by {
                assert(s[i].0 <= s[j].0);
            }
        }
        lemma_insert_sorted(t, e);
        let u = insert_sorted(t, e);
        let r = u.push(s.last());
        assert forall|k: int| 0 <= k < u.len() implies (#[trigger] u[k]).0 <= s.last().0 by {
            assert(u.to_multiset().count(u[k]) > 0);
            if u[k] == e {
            } else {
                assert(t.to_multiset().count(u[k]) > 0);
                let m = choose|m: int| 0 <= m < t.len() && t[m] == u[k];
                assert(s[m].0 <= s[s.len() - 1].0);
            }
        }
        assert forall|i: int, j: int| 0 <= i <= j < r.len() implies (#[trigger] r[i]).0 <= (
        #[trigger] r[j]).0 by {
            if j == u.len() {
                if i < u.len() {
                    assert(u[i].0 <= s.last().0);
                }
            } else {
                assert(u[i].0 <= u[j].0);
            }
        }
        assert(t.push(s.last()) =~= s);
        assert(r.to_multiset() =~= s.to_multiset().insert(e));
    }
}

/// An inserted entry comes behind the entries with its number, and the
/// entries with another number stay as they were.
pub proof fn lemma_insert_sorted_stable(
    s: Seq<(usize, Seq<char>)>,
    e: (usize, Seq<char>),
    k: usize,
)
    ensures
        with_number(insert_sorted(s, e), k) == if e.0 == k {
            with_number(s, k).push(e)
        } else {
            with_number(s, k)
        },
    decreases s.len(),
{
    if s.len() == 0 || s.last().0 <= e.0 {
        assert(s.push(e).drop_last() =~= s);
    } else {
        let t = s.drop_last();
        lemma_insert_sorted_stable(t, e, k);
        let r = insert_sorted(t, e).push(s.last());
        assert(r.drop_last() =~= insert_sorted(t, e));
    }
}

/// Sorting keeps the order of the entries that have the same number.
pub proof fn lemma_sort_entries_stable(s: Seq<(usize, Seq<char>)>, k: usize)
    ensures
        with_number(sort_entries(s), k) == with_number(s, k),
    decreases s.len(),
{
    if s.len() > 0 {
        lemma_sort_entries_stable(s.drop_last(), k);
        lemma_insert_sorted_stable(sort_entries(s.drop_last()), s.last(), k);
    }
}

/// Sorting gives an ascending sequence that holds the same entries, each as
/// often as before.
pub proof fn lemma_sort_entries(s: Seq<(usize, Seq<char>)>)
    ensures
        is_ascending(sort_entries(s)),
        sort_entries(s).len() == s.len(),
        sort_entries(s).to_multiset() == s.to_multiset(),
    decreases s.len(),
{
    broadcast use vstd::seq_lib::group_to_multiset_ensures;

    if s.len() > 0 {
        lemma_sort_entries(s.drop_last());
        lemma_insert_sorted(sort_entries(s.drop_last()), s.last());
        assert(s.drop_last().push(s.last()) =~= s);
    }
}

/// The indexed lookup of a configuration text comes in ascending order of
/// the numbers in the keys, whatever the order of its lines. It holds each
/// indexed assignment of the text exactly as often as the text does, and
/// assignments to the same number come in the order of their lines.
pub proof fn lemma_indexed_entries_ascending(text: Seq<char>, base: Seq<char>)
    ensures
        is_ascending(indexed_entries(text, base)),
        base.len() > 0 ==> indexed_entries(text, base).to_multiset() == entries(
            lines(text),
            base,
        ).to_multiset(),
        base.len() > 0 ==> forall|k: usize| #[trigger]
            with_number(indexed_entries(text, base), k) == with_number(
                entries(lines(text), base),
                k,
            ),
{
    if base.len() > 0 {
        let found = entries(lines(text), base);
        lemma_sort_entries(found);
        assert forall|k: usize| #[trigger]
            with_number(indexed_entries(text, base), k) == with_number(found, k) by {
            lemma_sort_entries_stable(found, k);
        }
    }
}

/// Decides `is_skipped`.
pub fn is_skipped_line(line: &Vec<char>) -> (r: bool)
    ensures
        r == is_skipped(line@),
{
    let t = trim_chars(line);
    proof {
        lemma_trim_shape(line@);
    }
    t.len() == 0 || t[0] == '#'
}

/// The key and the value of an assignment; nothing for a blank line, a
/// comment, or a line without `=`.
pub fn parse_assignment(line: &Vec<char>) -> (r: Option<(Vec<char>, Vec<char>)>)
    ensures
        r is Some <==> !is_skipped(line@) && line@.contains('='),
        r matches Some(kv) ==> kv.0@ == line_key(line@) && kv.1@ == line_value(line@),
{
    if is_skipped_line(line) {
        return None;
    }
    let at: usize = find_in(line, '=');
    proof {
        lemma_find_char(line@, '=');
    }
    if at == line.len() {
        return None;
    }
    let before = slice_of(line, 0, at);
    let after = slice_of(line, at + 1, line.len());
    assert(before@ =~= line@.take(at as int));
    assert(after@ =~= line@.skip(at + 1));
    let key = trim_chars(&before);
    let raw = trim_chars(&after);
    let bare = strip_one_chars(&raw, '"');
    let value = trim_chars(&bare);
    Some((key, value))
}

/// Decides `defines`: whether a line assigns to the key `name`.
pub fn assigns_to(line: &Vec<char>, name: &Vec<char>) -> (r: bool)
    ensures
        r == defines(line@, name@),
{
    match parse_assignment(line) {
        Some((key, _value)) => same_chars(&key, name),
        None => false,
    }
}

/// The scalar value of the field `name` in a configuration text.
pub fn field_of(text: &Vec<char>, name: &Vec<char>) -> (value: Vec<char>)
    ensures
        value@ == field_value(text@, name@),
{
    if name.len() == 0 {
        return Vec::new();
    }
    let all = lines_of(text);
    let mut i: usize = 0;
    assert(views(all@).skip(0) =~= views(all@));
    while i < all.len()
        invariant
            i <= all@.len(),
            name@.len() > 0,
            views(all@) == lines(text@),
            first_value(lines(text@), name@) == first_value(views(all@).skip(i as int), name@),
        decreases all@.len() - i,
    {
        proof {
            assert(views(all@).skip(i as int)[0] == all@[i as int]@);
            assert(views(all@).skip(i as int).drop_first() =~= views(all@).skip(i + 1));
        }
        match parse_assignment(&all[i]) {
            Some((key, value)) => {
                if same_chars(&key, name) {
                    assert(defines(views(all@).skip(i as int)[0], name@));
                    return value;
                }
            },
            None => {},
        }
        i += 1;
    }
    Vec::new()
}

/// The indexed assignments to `base` in a configuration text, in ascending
/// order of their numbers.
pub fn indexed_of(text: &Vec<char>, base: &Vec<char>) -> (r: Vec<(usize, Vec<char>)>)
    ensures
        entry_views(r@) == indexed_entries(text@, base@),
{
    let mut sorted: Vec<(usize, Vec<char>)> = Vec::new();
    if base.len() == 0 {
        assert(entry_views(sorted@) =~= Seq::<(usize, Seq<char>)>::empty());
        return sorted;
    }
    let mut prefix: Vec<char> = slice_of(base, 0, base.len());
    prefix.push('_');
    assert(prefix@ =~= base@.push('_'));
    let all = lines_of(text);
    let mut i: usize = 0;
    assert(views(all@).take(0) =~= Seq::<Seq<char>>::empty());
    assert(entry_views(sorted@) =~= Seq::<(usize, Seq<char>)>::empty());
    while i < all.len()
        invariant
            i <= all@.len(),
            base@.len() > 0,
            prefix@ == base@.push('_'),
            views(all@) == lines(text@),
            entry_views(sorted@) == sort_entries(entries(views(all@).take(i as int), base@)),
        decreases all@.len() - i,
    {
        proof {
            assert(views(all@).take(i + 1).drop_last() =~= views(all@).take(i as int));
            assert(views(all@).take(i + 1).last() == all@[i as int]@);
        }
        match parse_assignment(&all[i]) {
            Some((key, value)) => {
                if has_prefix(&key, &prefix) {
                    let digits = slice_of(&key, prefix.len(), key.len());
                    assert(digits@ =~= key@.skip(prefix@.len() as int));
                    match parse_usize_chars(&digits) {
                        Some(number) => {
                            if value.len() > 0 {
                                proof {
                                    lemma_sort_entries(entries(views(all@).take(i as int), base@));
                                }
                                insert_entry(&mut sorted, number, value);
                                proof {
                                    let e = entries(views(all@).take(i + 1), base@);
                                    assert(e.drop_last() =~= entries(
                                        views(all@).take(i as int),
                                        base@,
                                    ));
                                }
                            }
                        },
                        None => {},
                    }
                }
            },
            None => {},
        }
        i += 1;
    }
    assert(views(all@).take(all@.len() as int) =~= views(all@));
    sorted
}

/// Places an entry in an ascending vector, behind every entry whose number
/// is not greater.
pub fn insert_entry(sorted: &mut Vec<(usize, Vec<char>)>, number: usize, value: Vec<char>)
    requires
        is_ascending(entry_views(old(sorted)@)),
    ensures
        entry_views(final(sorted)@) == insert_sorted(entry_views(old(sorted)@), (number, value@)),
{
    let mut p: usize = sorted.len();
    while p > 0 && sorted[p - 1].0 > number
        invariant
            p <= sorted@.len(),
            sorted@ == old(sorted)@,
            forall|j: int| p <= j < sorted@.len() ==> (#[trigger] sorted@[j]).0 > number,
        decreases p,
    {
        p -= 1;
    }
    let ghost before = entry_views(sorted@);
    proof {
        assert forall|j: int| p <= j < before.len() implies (#[trigger] before[j]).0 > number by {
            assert(sorted@[j].0 > number);
        }
        lemma_insert_sorted_at(before, (number, value@), p as int);
    }
    sorted.insert(p, (number, value));
    assert(entry_views(sorted@) =~= before.insert(p as int, (number, value@)));
}

/// Reads the scalar field `field_name` from a configuration text: the value
/// of the first assignment to that key, or the empty string where there is
/// none, where its value is empty, or where `field_name` is empty.
pub fn read_field_from_toml(config_text: &str, field_name: &str) -> (value: String)
    ensures
        value@ == field_value(config_text@, field_name@),
{
    let text = chars_of(config_text);
    let name = chars_of(field_name);
    let value = field_of(&text, &name);
    string_of(&value)
}

/// Reads the fields `base_name_<number>` from a configuration text and
/// returns their values in ascending order of the numbers, whatever the
/// order of the lines. Assignments with an empty value are left out.
pub fn read_basename_fields_from_toml(config_text: &str, base_name: &str) -> (values: Vec<String>)
    ensures
        string_views(values@) == indexed_values(config_text@, base_name@),
{
    let text = chars_of(config_text);
    let base = chars_of(base_name);
    let found = indexed_of(&text, &base);
    let mut values: Vec<String> = Vec::new();
    let mut i: usize = 0;
    while i < found.len()
        invariant
            i <= found@.len(),
            values@.len() == i,
            forall|j: int| 0 <= j < i ==> (#[trigger] values@[j])@ == found@[j].1@,
        decreases found@.len() - i,
    {
        values.push(string_of(&found[i].1));
        i += 1;
    }
    assert(string_views(values@) =~= values_of(entry_views(found@)));
    values
}

} // verus!
