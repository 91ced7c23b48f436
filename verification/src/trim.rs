//! Trimming: removing white space, a repeated character, or one layer of a
//! character from the ends of a text.

use vstd::prelude::*;
use crate::text::slice_of;

verus! {

/// Whether `c` is white space in the sense of `char::is_whitespace`: a code
/// point with the Unicode property `White_Space`.
pub open spec fn is_space(c: char) -> bool {
    let n = c as u32;
    ||| 0x09 <= n <= 0x0D
    ||| n == 0x20
    ||| n == 0x85
    ||| n == 0xA0
    ||| n == 0x1680
    ||| 0x2000 <= n <= 0x200A
    ||| n == 0x2028
    ||| n == 0x2029
    ||| n == 0x202F
    ||| n == 0x205F
    ||| n == 0x3000
}

/// Decides `is_space`.
pub fn is_space_char(c: char) -> (r: bool)
    ensures
        r == is_space(c),
{
    let n: u32 = c as u32;
    (0x09 <= n && n <= 0x0D) || n == 0x20 || n == 0x85 || n == 0xA0 || n == 0x1680 || (0x2000 <= n
        && n <= 0x200A) || n == 0x2028 || n == 0x2029 || n == 0x202F || n == 0x205F || n == 0x3000
}

/// `s` without its leading white space.
pub open spec fn trim_start(s: Seq<char>) -> Seq<char>
    decreases s.len(),
{
    if s.len() > 0 && is_space(s[0]) {
        trim_start(s.drop_first())
    } else {
        s
    }
}

/// `s` without its trailing white space.
pub open spec fn trim_end(s: Seq<char>) -> Seq<char>
    decreases s.len(),
{
    if s.len() > 0 && is_space(s.last()) {
        trim_end(s.drop_last())
    } else {
        s
    }
}

/// `s` without its leading and trailing white space.
pub open spec fn trim(s: Seq<char>) -> Seq<char> {
    trim_end(trim_start(s))
}

/// `s` without its leading occurrences of `c`.
pub open spec fn strip_start(s: Seq<char>, c: char) -> Seq<char>
    decreases s.len(),
{
    if s.len() > 0 && s[0] == c {
        strip_start(s.drop_first(), c)
    } else {
        s
    }
}

/// `s` without one `c` at its start and one `c` at its end, where they
/// stand there: at most one character goes from each end.
pub open spec fn strip_one(s: Seq<char>, c: char) -> Seq<char> {
    let rest = if s.len() > 0 && s[0] == c {
        s.drop_first()
    } else {
        s
    };
    if rest.len() > 0 && rest.last() == c {
        rest.drop_last()
    } else {
        rest
    }
}

/// Trimming white space yields a piece of the text that neither begins nor
/// ends with white space.
pub proof fn lemma_trim_shape(s: Seq<char>)
    ensures
        trim(s).len() <= s.len(),
        trim(s).len() > 0 ==> !is_space(trim(s)[0]) && !is_space(trim(s).last()),
        trim(s).len() == 0 <==> trim_start(s).len() == 0,
        trim(s).len() > 0 ==> trim(s)[0] == trim_start(s)[0],
{
    lemma_trim_start_shape(s);
    lemma_trim_end_shape(trim_start(s));
}

/// What `trim_start` leaves is a suffix of the text that does not begin
/// with white space.
pub proof fn lemma_trim_start_shape(s: Seq<char>)
    ensures
        trim_start(s).len() <= s.len(),
        trim_start(s) == s.skip(s.len() - trim_start(s).len()),
        trim_start(s).len() > 0 ==> !is_space(trim_start(s)[0]),
        forall|i: int| 0 <= i < s.len() - trim_start(s).len() ==> is_space(#[trigger] s[i]),
    decreases s.len(),
{
    if s.len() > 0 && is_space(s[0]) {
        let t = s.drop_first();
        lemma_trim_start_shape(t);
        let k = t.len() - trim_start(t).len();
        assert(t.skip(k) =~= s.skip(k + 1));
        assert forall|i: int| 0 <= i < s.len() - trim_start(s).len() implies is_space(
            #[trigger] s[i],
        ) by {
            if i > 0 {
                assert(s[i] == t[i - 1]);
            }
        }
    } else {
        assert(s.skip(0) =~= s);
    }
}

/// What `trim_end` leaves is a prefix of the text that does not end with
/// white space.
pub proof fn lemma_trim_end_shape(s: Seq<char>)
    ensures
        trim_end(s).len() <= s.len(),
        trim_end(s) == s.take(trim_end(s).len() as int),
        trim_end(s).len() > 0 ==> !is_space(trim_end(s).last()),
        forall|i: int| trim_end(s).len() <= i < s.len() ==> is_space(#[trigger] s[i]),
        trim_end(s).len() > 0 ==> trim_end(s)[0] == s[0],
        s.len() > 0 && !is_space(s[0]) ==> trim_end(s).len() > 0,
    decreases s.len(),
{
    if s.len() > 0 && is_space(s.last()) {
        let t = s.drop_last();
        lemma_trim_end_shape(t);
        assert(t.take(trim_end(t).len() as int) =~= s.take(trim_end(t).len() as int));
        assert forall|i: int| trim_end(s).len() <= i < s.len() implies is_space(
            #[trigger] s[i],
        ) by {
            if i < t.len() {
                assert(s[i] == t[i]);
            }
        }
    } else {
        assert(s.take(s.len() as int) =~= s);
    }
}

/// What `strip_start` leaves is a suffix of the text that does not begin
/// with the character.
pub proof fn lemma_strip_start_shape(s: Seq<char>, c: char)
    ensures
        strip_start(s, c).len() <= s.len(),
        strip_start(s, c) == s.skip(s.len() - strip_start(s, c).len()),
        strip_start(s, c).len() > 0 ==> strip_start(s, c)[0] != c,
    decreases s.len(),
{
    if s.len() > 0 && s[0] == c {
        let t = s.drop_first();
        lemma_strip_start_shape(t, c);
        let k = t.len() - strip_start(t, c).len();
        assert(t.skip(k) =~= s.skip(k + 1));
    } else {
        assert(s.skip(0) =~= s);
    }
}

/// White space behind a text does not show after trimming.
pub proof fn lemma_trim_push_space(s: Seq<char>, c: char)
    requires
        is_space(c),
    ensures
        trim(s.push(c)) == trim(s),
        trim_start(s).len() == 0 ==> trim_start(s.push(c)).len() == 0,
        trim_start(s).len() > 0 ==> trim_start(s.push(c)) == trim_start(s).push(c),
    decreases s.len(),
{
    if s.len() > 0 && is_space(s[0]) {
        lemma_trim_push_space(s.drop_first(), c);
        assert(s.push(c).drop_first() =~= s.drop_first().push(c));
    } else if s.len() == 0 {
        assert(s.push(c).drop_first() =~= Seq::<char>::empty());
        assert(trim_start(s.push(c).drop_first()).len() == 0);
    } else {
        assert(s.push(c)[0] == s[0]);
    }
    if trim_start(s).len() > 0 {
        assert(trim_start(s).push(c).drop_last() =~= trim_start(s));
    }
}

/// A text that neither begins nor ends with white space is its own trimmed
/// form.
pub proof fn lemma_trim_nothing(s: Seq<char>)
    requires
        s.len() > 0 ==> !is_space(s[0]) && !is_space(s.last()),
    ensures
        trim(s) == s,
{
}

/// A character that is no white space and occurs in a text occurs in the
/// trimmed text.
pub proof fn lemma_trim_keeps(s: Seq<char>, c: char)
    requires
        !is_space(c),
        s.contains(c),
    ensures
        trim(s).contains(c),
{
    let k = choose|k: int| 0 <= k < s.len() && s[k] == c;
    let t = trim_start(s);
    lemma_trim_start_shape(s);
    lemma_trim_end_shape(t);
    let a = s.len() - t.len();
    if k < a {
        assert(is_space(s[k]));
    }
    assert(t[k - a] == s[k]);
    let b = trim_end(t).len() as int;
    if k - a >= b {
        assert(is_space(t[k - a]));
    }
    assert(trim(s)[k - a] == c);
}

/// A copy of `v` without its leading and trailing white space.
pub fn trim_chars(v: &Vec<char>) -> (r: Vec<char>)
    ensures
        r@ == trim(v@),
{
    let n: usize = v.len();
    let mut a: usize = 0;
    assert(v@.skip(0) =~= v@);
    while a < n && is_space_char(v[a])
        invariant
            n == v@.len(),
            a <= n,
            trim_start(v@) == trim_start(v@.skip(a as int)),
        decreases n - a,
    {
        assert(v@.skip(a as int).drop_first() =~= v@.skip(a + 1));
        assert(v@.skip(a as int)[0] == v@[a as int]);
        a += 1;
    }
    proof {
        if a < n {
            assert(v@.skip(a as int)[0] == v@[a as int]);
        }
        assert(trim_start(v@) == v@.skip(a as int));
    }
    let mut b: usize = n;
    while b > a && is_space_char(v[b - 1])
        invariant
            n == v@.len(),
            a <= b <= n,
            trim(v@) == trim_end(v@.subrange(a as int, b as int)),
        decreases b - a,
    {
        assert(v@.subrange(a as int, b as int).drop_last() =~= v@.subrange(a as int, b - 1));
        assert(v@.subrange(a as int, b as int).last() == v@[b - 1]);
        b -= 1;
    }
    proof {
        assert(v@.subrange(a as int, n as int) =~= v@.skip(a as int));
        if b > a {
            assert(v@.subrange(a as int, b as int).last() == v@[b - 1]);
        }
    }
    slice_of(v, a, b)
}

/// A copy of `v` without one `c` at its start and one at its end.
pub fn strip_one_chars(v: &Vec<char>, c: char) -> (r: Vec<char>)
    ensures
        r@ == strip_one(v@, c),
{
    let n: usize = v.len();
    let a: usize = if n > 0 && v[0] == c {
        1
    } else {
        0
    };
    let b: usize = if n > a && v[n - 1] == c {
        n - 1
    } else {
        n
    };
    proof {
        let rest = v@.subrange(a as int, n as int);
        if a == 1 {
            assert(rest =~= v@.drop_first());
        } else {
            assert(rest =~= v@);
        }
        if n > a {
            assert(rest.last() == v@[n - 1]);
            assert(v@.subrange(a as int, n - 1) =~= rest.drop_last());
        }
    }
    slice_of(v, a, b)
}

/// The number of leading occurrences of `c` in `v`.
pub fn strip_start_index(v: &Vec<char>, c: char) -> (a: usize)
    ensures
        a <= v@.len(),
        v@.skip(a as int) == strip_start(v@, c),
{
    let n: usize = v.len();
    let mut a: usize = 0;
    assert(v@.skip(0) =~= v@);
    while a < n && v[a] == c
        invariant
            n == v@.len(),
            a <= n,
            strip_start(v@, c) == strip_start(v@.skip(a as int), c),
        decreases n - a,
    {
        assert(v@.skip(a as int).drop_first() =~= v@.skip(a + 1));
        assert(v@.skip(a as int)[0] == v@[a as int]);
        a += 1;
    }
    proof {
        if a < n {
            assert(v@.skip(a as int)[0] == v@[a as int]);
        }
    }
    a
}

} // verus!
