//! Searching for a character, splitting a text at a separator, joining the
//! pieces again, and cutting a text into lines.

use vstd::prelude::*;
use crate::text::{views, slice_of, append_chars};

verus! {

/// The index of the first occurrence of `c` in `s`, or the length of `s`
/// where `c` does not occur.
pub open spec fn find_char(s: Seq<char>, c: char) -> int
    decreases s.len(),
{
    if s.len() == 0 {
        0
    } else if s[0] == c {
        0
    } else {
        1 + find_char(s.drop_first(), c)
    }
}

/// `find_char` is within the text, nothing before it is `c`, and it points
/// at `c` exactly when `c` occurs.
pub proof fn lemma_find_char(s: Seq<char>, c: char)
    ensures
        0 <= find_char(s, c) <= s.len(),
        forall|i: int| 0 <= i < find_char(s, c) ==> #[trigger] s[i] != c,
        find_char(s, c) < s.len() ==> s[find_char(s, c)] == c,
        find_char(s, c) < s.len() <==> s.contains(c),
    decreases s.len(),
{
    if s.len() > 0 && s[0] != c {
        let t = s.drop_first();
        lemma_find_char(t, c);
        assert forall|i: int| 0 <= i < find_char(s, c) implies #[trigger] s[i] != c by {
            if i > 0 {
                assert(s[i] == t[i - 1]);
            }
        }
        if s.contains(c) {
            let k = choose|k: int| 0 <= k < s.len() && s[k] == c;
            assert(t[k - 1] == c);
        }
        if find_char(s, c) < s.len() {
            assert(s[find_char(s, c)] == t[find_char(t, c)]);
        }
    }
}

/// An index with no `c` before it, which is the end of the text or points at
/// `c`, is `find_char`.
pub proof fn lemma_find_char_is(s: Seq<char>, c: char, i: int)
    requires
        0 <= i <= s.len(),
        forall|j: int| 0 <= j < i ==> #[trigger] s[j] != c,
        i < s.len() ==> s[i] == c,
    ensures
        find_char(s, c) == i,
{
    lemma_find_char(s, c);
    let r = find_char(s, c);
    if r < i {
        assert(s[r] != c);
    }
    if i < r {
        assert(s[i] != c);
    }
}

/// The index of the first occurrence of `c` in `v`, or the length of `v`.
pub fn find_in(v: &Vec<char>, c: char) -> (r: usize)
    ensures
        r == find_char(v@, c),
        r <= v@.len(),
{
    let mut i: usize = 0;
    while i < v.len() && v[i] != c
        invariant
            i <= v@.len(),
            forall|j: int| 0 <= j < i ==> #[trigger] v@[j] != c,
        decreases v@.len() - i,
    {
        i += 1;
    }
    proof {
        lemma_find_char_is(v@, c, i as int);
    }
    i
}

/// The pieces of `s` between the occurrences of `sep`: one more piece than
/// there are separators, so a text without `sep` is its own single piece.
pub open spec fn split(s: Seq<char>, sep: char) -> Seq<Seq<char>>
    decreases s.len(),
{
    if s.len() == 0 {
        seq![Seq::<char>::empty()]
    } else {
        let head = split(s.drop_last(), sep);
        if s.last() == sep {
            head.push(Seq::<char>::empty())
        } else {
            head.update(head.len() - 1, head.last().push(s.last()))
        }
    }
}

/// The pieces joined with `sep` between them.
pub open spec fn join(parts: Seq<Seq<char>>, sep: char) -> Seq<char>
    decreases parts.len(),
{
    if parts.len() == 0 {
        Seq::<char>::empty()
    } else if parts.len() == 1 {
        parts[0]
    } else {
        join(parts.drop_last(), sep).push(sep) + parts.last()
    }
}

/// Whether no piece holds `c`.
pub open spec fn all_free_of(parts: Seq<Seq<char>>, c: char) -> bool {
    forall|i: int| 0 <= i < parts.len() ==> !(#[trigger] parts[i]).contains(c)
}

/// A split has at least one piece, no piece holds the separator, and there
/// is a single piece exactly when the text holds no separator.
pub proof fn lemma_split_shape(s: Seq<char>, sep: char)
    ensures
        split(s, sep).len() >= 1,
        all_free_of(split(s, sep), sep),
        split(s, sep).len() == 1 <==> !s.contains(sep),
        !s.contains(sep) ==> split(s, sep) == seq![s],
    decreases s.len(),
{
    if s.len() == 0 {
        assert(s =~= Seq::<char>::empty());
        assert(split(s, sep) =~= seq![s]);
        assert(!Seq::<char>::empty().contains(sep));
    } else {
        let t = s.drop_last();
        let head = split(t, sep);
        lemma_split_shape(t, sep);
        if s.last() == sep {
            assert(s[s.len() - 1] == sep);
            assert(!Seq::<char>::empty().contains(sep));
        } else {
            let piece = head.last().push(s.last());
            assert(!piece.contains(sep)) by {
                if piece.contains(sep) {
                    let k = choose|k: int| 0 <= k < piece.len() && piece[k] == sep;
                    assert(head.last()[k] == sep);
                }
            }
            if s.contains(sep) {
                let k = choose|k: int| 0 <= k < s.len() && s[k] == sep;
                assert(t[k] == sep);
            }
            if t.contains(sep) {
                let k = choose|k: int| 0 <= k < t.len() && t[k] == sep;
                assert(s[k] == sep);
            }
            if !s.contains(sep) {
                assert(t.push(s.last()) =~= s);
                assert(head =~= seq![t]);
                assert(split(s, sep) =~= seq![s]);
            }
        }
    }
}

/// Appending a text without separator to `a` lengthens the last piece.
pub proof fn lemma_split_append_plain(a: Seq<char>, b: Seq<char>, sep: char)
    requires
        !b.contains(sep),
    ensures
        split(a + b, sep) == split(a, sep).update(
            split(a, sep).len() - 1,
            split(a, sep).last() + b,
        ),
    decreases b.len(),
{
    lemma_split_shape(a, sep);
    let p = split(a, sep);
    if b.len() == 0 {
        assert(a + b =~= a);
        assert(p.last() + b =~= p.last());
        assert(p.update(p.len() - 1, p.last()) =~= p);
    } else {
        let b0 = b.drop_last();
        assert(!b0.contains(sep)) by {
            if b0.contains(sep) {
                let k = choose|k: int| 0 <= k < b0.len() && b0[k] == sep;
                assert(b[k] == sep);
            }
        }
        lemma_split_append_plain(a, b0, sep);
        assert((a + b).drop_last() =~= a + b0);
        assert((a + b).last() == b.last());
        assert(b[b.len() - 1] != sep);
        let q = split(a + b0, sep);
        assert(q.last().push(b.last()) =~= p.last() + b);
        assert(q.update(q.len() - 1, q.last().push(b.last())) =~= p.update(
            p.len() - 1,
            p.last() + b,
        ));
    }
}

/// Appending a separator to `a` opens a new, empty piece.
pub proof fn lemma_split_append_sep(a: Seq<char>, sep: char)
    ensures
        split(a.push(sep), sep) == split(a, sep).push(Seq::<char>::empty()),
{
    assert(a.push(sep).drop_last() =~= a);
}

/// Splitting what was joined gives the pieces back, where there is at least
/// one piece and none holds the separator.
pub proof fn lemma_split_join(parts: Seq<Seq<char>>, sep: char)
    requires
        parts.len() >= 1,
        all_free_of(parts, sep),
    ensures
        split(join(parts, sep), sep) == parts,
    decreases parts.len(),
{
    if parts.len() == 1 {
        lemma_split_shape(parts[0], sep);
        assert(seq![parts[0]] =~= parts);
    } else {
        let head = parts.drop_last();
        assert(all_free_of(head, sep)) by {
            assert forall|i: int| 0 <= i < head.len() implies !(#[trigger] head[i]).contains(
                sep,
            ) by {
                assert(head[i] == parts[i]);
            }
        }
        lemma_split_join(head, sep);
        let j = join(head, sep);
        lemma_split_append_sep(j, sep);
        lemma_split_append_plain(j.push(sep), parts.last(), sep);
        let p = head.push(Seq::<char>::empty());
        assert(Seq::<char>::empty() + parts.last() =~= parts.last());
        assert(p.update(p.len() - 1, parts.last()) =~= parts);
    }
}

/// A join begins as its first piece does, where that piece is not empty.
pub proof fn lemma_join_first(parts: Seq<Seq<char>>, sep: char)
    requires
        parts.len() >= 1,
        parts[0].len() > 0,
    ensures
        join(parts, sep).len() > 0,
        join(parts, sep)[0] == parts[0][0],
    decreases parts.len(),
{
    if parts.len() >= 2 {
        let head = parts.drop_last();
        assert(head[0] == parts[0]);
        lemma_join_first(head, sep);
    }
}

/// A join of two or more pieces ends as its last piece does, or with the
/// separator where that piece is empty.
pub proof fn lemma_join_last(parts: Seq<Seq<char>>, sep: char)
    requires
        parts.len() >= 2,
    ensures
        join(parts, sep).len() > 0,
        join(parts, sep).last() == if parts.last().len() > 0 {
            parts.last().last()
        } else {
            sep
        },
{
}

/// Behind a text that ends with the separator, the pieces of what follows
/// are pieces of the whole: the pieces of the text but its last, which is
/// empty, and then the pieces of what follows.
pub proof fn lemma_split_add(a: Seq<char>, y: Seq<char>, sep: char)
    ensures
        split(a.push(sep) + y, sep) == split(a, sep) + split(y, sep),
    decreases y.len(),
{
    let x = a.push(sep);
    lemma_split_shape(a, sep);
    if y.len() == 0 {
        assert(x + y =~= x);
        lemma_split_append_sep(a, sep);
        assert(split(a, sep).push(Seq::<char>::empty()) =~= split(a, sep) + split(y, sep));
    } else {
        let y0 = y.drop_last();
        lemma_split_add(a, y0, sep);
        lemma_split_shape(y0, sep);
        assert((x + y).drop_last() =~= x + y0);
        assert((x + y).last() == y.last());
        let p = split(a, sep);
        let q0 = split(y0, sep);
        if y.last() == sep {
            assert((p + q0).push(Seq::<char>::empty()) =~= p + q0.push(Seq::<char>::empty()));
        } else {
            let piece = q0.last().push(y.last());
            assert((p + q0).last() == q0.last());
            assert((p + q0).update((p + q0).len() - 1, piece) =~= p + q0.update(
                q0.len() - 1,
                piece,
            ));
        }
    }
}

/// The pieces of `v` between the occurrences of `sep`.
pub fn split_chars(v: &Vec<char>, sep: char) -> (r: Vec<Vec<char>>)
    ensures
        views(r@) == split(v@, sep),
        r@.len() >= 1,
{
    let mut pieces: Vec<Vec<char>> = Vec::new();
    let mut start: usize = 0;
    let mut i: usize = 0;
    assert(v@.take(0) =~= Seq::<char>::empty());
    assert(split(v@.take(0), sep) =~= views(pieces@).push(v@.subrange(0, 0)));
    while i < v.len()
        invariant
            start <= i <= v@.len(),
            split(v@.take(i as int), sep) == views(pieces@).push(
                v@.subrange(start as int, i as int),
            ),
        decreases v@.len() - i,
    {
        let ghost before = views(pieces@);
        let ghost cur = v@.subrange(start as int, i as int);
        proof {
            assert(v@.take(i + 1).drop_last() =~= v@.take(i as int));
            assert(v@.take(i + 1).last() == v@[i as int]);
        }
        if v[i] == sep {
            pieces.push(slice_of(v, start, i));
            start = i + 1;
            proof {
                assert(views(pieces@) =~= before.push(cur));
                assert(v@.subrange(start as int, i + 1) =~= Seq::<char>::empty());
            }
        } else {
            proof {
                assert(v@.subrange(start as int, i + 1) =~= cur.push(v@[i as int]));
                assert(before.push(cur).update(before.len() as int, cur.push(v@[i as int]))
                    =~= before.push(cur.push(v@[i as int])));
            }
        }
        i += 1;
    }
    let ghost before = views(pieces@);
    pieces.push(slice_of(v, start, i));
    proof {
        assert(v@.take(i as int) =~= v@);
        assert(views(pieces@) =~= before.push(v@.subrange(start as int, i as int)));
    }
    pieces
}

/// The pieces joined with `sep` between them.
pub fn join_pieces(parts: &Vec<Vec<char>>, sep: char) -> (r: Vec<char>)
    ensures
        r@ == join(views(parts@), sep),
{
    let mut r: Vec<char> = Vec::new();
    let mut i: usize = 0;
    assert(views(parts@).take(0) =~= Seq::<Seq<char>>::empty());
    while i < parts.len()
        invariant
            i <= parts@.len(),
            r@ == join(views(parts@).take(i as int), sep),
        decreases parts@.len() - i,
    {
        let ghost before = r@;
        proof {
            assert(views(parts@).take(i + 1).drop_last() =~= views(parts@).take(i as int));
            assert(views(parts@).take(i + 1).last() == parts@[i as int]@);
        }
        if i > 0 {
            r.push(sep);
        }
        append_chars(&mut r, &parts[i]);
        proof {
            if i == 0 {
                assert(r@ =~= parts@[0]@);
            }
        }
        i += 1;
    }
    assert(views(parts@).take(parts@.len() as int) =~= views(parts@));
    r
}

/// `line` without one trailing carriage return.
pub open spec fn strip_cr(line: Seq<char>) -> Seq<char> {
    if line.len() > 0 && line.last() == '\r' {
        line.drop_last()
    } else {
        line
    }
}

/// The lines of a text. A line ends at a line feed; a carriage return just
/// before the line feed belongs to the line ending. What follows the last
/// line feed is a line of its own unless it is empty, and keeps a trailing
/// carriage return.
pub open spec fn lines(s: Seq<char>) -> Seq<Seq<char>> {
    let pieces = split(s, '\n');
    let ended = pieces.drop_last().map_values(|l: Seq<char>| strip_cr(l));
    if pieces.last().len() == 0 {
        ended
    } else {
        ended.push(pieces.last())
    }
}

/// The lines of `v`.
pub fn lines_of(v: &Vec<char>) -> (r: Vec<Vec<char>>)
    ensures
        views(r@) == lines(v@),
{
    let pieces = split_chars(v, '\n');
    let last: usize = pieces.len() - 1;
    let mut r: Vec<Vec<char>> = Vec::new();
    let mut i: usize = 0;
    let ghost p = split(v@, '\n');
    let ghost ended = p.drop_last().map_values(|l: Seq<char>| strip_cr(l));
    while i < last
        invariant
            last == pieces@.len() - 1,
            views(pieces@) == p,
            i <= last,
            ended == p.drop_last().map_values(|l: Seq<char>| strip_cr(l)),
            views(r@) == ended.take(i as int),
        decreases last - i,
    {
        let ghost before = views(r@);
        let piece = &pieces[i];
        assert(piece@ == p[i as int]);
        let n: usize = piece.len();
        if n > 0 && piece[n - 1] == '\r' {
            r.push(slice_of(piece, 0, n - 1));
            assert(piece@.subrange(0, n - 1) =~= strip_cr(piece@));
        } else {
            r.push(slice_of(piece, 0, n));
            assert(piece@.subrange(0, n as int) =~= strip_cr(piece@));
        }
        i += 1;
        proof {
            assert(ended[i - 1] == strip_cr(p.drop_last()[i - 1]));
            assert(views(r@) =~= before.push(strip_cr(piece@)));
            assert(ended.take(i as int) =~= ended.take(i - 1).push(ended[i - 1]));
        }
    }
    assert(ended.take(last as int) =~= ended);
    let tail = &pieces[last];
    assert(tail@ == p[last as int]);
    if tail.len() > 0 {
        let ghost before = views(r@);
        r.push(slice_of(tail, 0, tail.len()));
        proof {
            assert(tail@.subrange(0, tail@.len() as int) =~= tail@);
            assert(views(r@) =~= before.push(tail@));
        }
    }
    r
}

/// Behind a text that ends with a line feed, the lines of what follows are
/// lines of the whole.
pub proof fn lemma_lines_add(a: Seq<char>, y: Seq<char>)
    ensures
        lines(a.push('\n') + y) == lines(a.push('\n')) + lines(y),
{
    let f = |l: Seq<char>| strip_cr(l);
    let x = a.push('\n');
    let p = split(a, '\n');
    let q = split(y, '\n');
    lemma_split_add(a, y, '\n');
    lemma_split_append_sep(a, '\n');
    lemma_split_shape(a, '\n');
    lemma_split_shape(y, '\n');
    assert(split(x, '\n').drop_last() =~= p);
    assert(lines(x) == p.map_values(f));
    assert((p + q).drop_last() =~= p + q.drop_last());
    assert((p + q.drop_last()).map_values(f) =~= p.map_values(f) + q.drop_last().map_values(f));
    assert((p + q).last() == q.last());
    if q.last().len() > 0 {
        assert((p.map_values(f) + q.drop_last().map_values(f)).push(q.last()) =~= p.map_values(f)
            + q.drop_last().map_values(f).push(q.last()));
    }
}

} // verus!
