//! The grammar of a floating-point literal.
//!
//! The library keeps a fractional parameter as the text that was read, so
//! that writing a record and reading it again gives the same record. A text
//! is kept only if it is a literal of this grammar, the one that
//! `str::parse::<f32>` accepts:
//!
//! ```text
//! Float  ::= Sign? ( 'inf' | 'infinity' | 'nan' | Number )
//! Number ::= ( Digit+ | Digit+ '.' Digit* | Digit* '.' Digit+ ) Exp?
//! Exp    ::= 'e' Sign? Digit+
//! ```
//!
//! with letters in either case.

use vstd::prelude::*;
use crate::text::slice_of;
use crate::number::{is_digit, is_digit_char, all_digits, without_sign};

verus! {

/// An ASCII capital letter as its small letter; any other character as it
/// is.
pub open spec fn lower(c: char) -> char {
    if 0x41 <= c as u32 <= 0x5A {
        ((c as u32) + 0x20) as char
    } else {
        c
    }
}

/// Whether `s` is `word` but for the case of its ASCII letters.
pub open spec fn is_word(s: Seq<char>, word: Seq<char>) -> bool {
    s.len() == word.len() && forall|i: int| 0 <= i < s.len() ==> lower(#[trigger] s[i]) == word[i]
}

/// The number of digits at the start of `s`.
pub open spec fn leading_digits(s: Seq<char>) -> nat
    decreases s.len(),
{
    if s.len() > 0 && is_digit(s[0]) {
        1 + leading_digits(s.drop_first())
    } else {
        0
    }
}

/// Whether `s` is an exponent: `e` or `E`, an optional sign, and at least
/// one digit.
pub open spec fn is_exponent(s: Seq<char>) -> bool {
    &&& s.len() >= 2
    &&& (s[0] == 'e' || s[0] == 'E')
    &&& without_sign(s.drop_first()).len() > 0
    &&& all_digits(without_sign(s.drop_first()))
}

/// Whether `s` is empty or an exponent.
pub open spec fn is_exponent_or_empty(s: Seq<char>) -> bool {
    s.len() == 0 || is_exponent(s)
}

/// Whether `s` is a number: digits with an optional point among them, at
/// least one digit in all, and an optional exponent.
pub open spec fn is_number(s: Seq<char>) -> bool {
    let i = leading_digits(s);
    let rest = s.skip(i as int);
    if rest.len() > 0 && rest[0] == '.' {
        let fraction = rest.drop_first();
        let j = leading_digits(fraction);
        i + j >= 1 && is_exponent_or_empty(fraction.skip(j as int))
    } else {
        i >= 1 && is_exponent_or_empty(rest)
    }
}

/// Whether `s` is a floating-point literal.
pub open spec fn is_float_text(s: Seq<char>) -> bool {
    let body = without_sign(s);
    ||| is_word(body, seq!['i', 'n', 'f'])
    ||| is_word(body, seq!['i', 'n', 'f', 'i', 'n', 'i', 't', 'y'])
    ||| is_word(body, seq!['n', 'a', 'n'])
    ||| is_number(body)
}

/// `leading_digits` stays within the text.
pub proof fn lemma_leading_digits(s: Seq<char>)
    ensures
        leading_digits(s) <= s.len(),
        forall|i: int| 0 <= i < leading_digits(s) ==> is_digit(#[trigger] s[i]),
        leading_digits(s) < s.len() ==> !is_digit(s[leading_digits(s) as int]),
    decreases s.len(),
{
    if s.len() > 0 && is_digit(s[0]) {
        let t = s.drop_first();
        lemma_leading_digits(t);
        assert forall|i: int| 0 <= i < leading_digits(s) implies is_digit(#[trigger] s[i]) by {
            if i > 0 {
                assert(s[i] == t[i - 1]);
            }
        }
        if leading_digits(s) < s.len() {
            assert(s[leading_digits(s) as int] == t[leading_digits(t) as int]);
        }
    }
}

/// Whether `c`, but for its case, is the character `w`.
pub fn lower_is(c: char, w: char) -> (r: bool)
    ensures
        r == (lower(c) == w),
{
    let n: u32 = c as u32;
    let m: u32 = if 0x41 <= n && n <= 0x5A {
        n + 0x20
    } else {
        n
    };
    m == w as u32
}

/// Decides `is_word` for the word that `word` holds.
pub fn is_word_chars(v: &Vec<char>, word: &Vec<char>) -> (r: bool)
    ensures
        r == is_word(v@, word@),
{
    if v.len() != word.len() {
        return false;
    }
    let mut i: usize = 0;
    while i < v.len()
        invariant
            v@.len() == word@.len(),
            i <= v@.len(),
            forall|j: int| 0 <= j < i ==> lower(#[trigger] v@[j]) == word@[j],
        decreases v@.len() - i,
    {
        if !lower_is(v[i], word[i]) {
            return false;
        }
        i += 1;
    }
    true
}

/// The number of digits at the start of `v`.
pub fn count_digits(v: &Vec<char>) -> (r: usize)
    ensures
        r == leading_digits(v@),
        r <= v@.len(),
{
    let mut i: usize = 0;
    assert(v@.skip(0) =~= v@);
    while i < v.len() && is_digit_char(v[i])
        invariant
            i <= v@.len(),
            leading_digits(v@) == i + leading_digits(v@.skip(i as int)),
        decreases v@.len() - i,
    {
        assert(v@.skip(i as int).drop_first() =~= v@.skip(i + 1));
        assert(v@.skip(i as int)[0] == v@[i as int]);
        i += 1;
    }
    proof {
        if i < v.len() {
            assert(v@.skip(i as int)[0] == v@[i as int]);
        }
    }
    i
}

/// Decides `is_exponent_or_empty`.
pub fn is_exponent_chars(v: &Vec<char>) -> (r: bool)
    ensures
        r == is_exponent_or_empty(v@),
{
    let n: usize = v.len();
    if n == 0 {
        return true;
    }
    if n < 2 || !(v[0] == 'e' || v[0] == 'E') {
        return false;
    }
    let from: usize = if v[1] == '+' || v[1] == '-' {
        2
    } else {
        1
    };
    let digits = slice_of(v, from, n);
    proof {
        assert(v@.drop_first()[0] == v@[1]);
        assert(digits@ =~= without_sign(v@.drop_first()));
    }
    let k: usize = count_digits(&digits);
    proof {
        lemma_leading_digits(digits@);
    }
    digits.len() > 0 && k == digits.len()
}

/// Decides `is_number`.
pub fn is_number_chars(v: &Vec<char>) -> (r: bool)
    ensures
        r == is_number(v@),
{
    let n: usize = v.len();
    let i: usize = count_digits(v);
    let rest = slice_of(v, i, n);
    assert(rest@ =~= v@.skip(i as int));
    if rest.len() > 0 && rest[0] == '.' {
        let fraction = slice_of(&rest, 1, rest.len());
        assert(fraction@ =~= rest@.drop_first());
        let j: usize = count_digits(&fraction);
        let tail = slice_of(&fraction, j, fraction.len());
        assert(tail@ =~= fraction@.skip(j as int));
        (i >= 1 || j >= 1) && is_exponent_chars(&tail)
    } else {
        i >= 1 && is_exponent_chars(&rest)
    }
}

/// Decides `is_float_text`.
pub fn is_float_chars(v: &Vec<char>) -> (r: bool)
    ensures
        r == is_float_text(v@),
{
    let n: usize = v.len();
    let body = if n > 0 && (v[0] == '+' || v[0] == '-') {
        slice_of(v, 1, n)
    } else {
        slice_of(v, 0, n)
    };
    assert(body@ =~= without_sign(v@));
    let inf: Vec<char> = vec!['i', 'n', 'f'];
    let infinity: Vec<char> = vec!['i', 'n', 'f', 'i', 'n', 'i', 't', 'y'];
    let nan: Vec<char> = vec!['n', 'a', 'n'];
    assert(inf@ =~= seq!['i', 'n', 'f']);
    assert(infinity@ =~= seq!['i', 'n', 'f', 'i', 'n', 'i', 't', 'y']);
    assert(nan@ =~= seq!['n', 'a', 'n']);
    is_word_chars(&body, &inf) || is_word_chars(&body, &infinity) || is_word_chars(&body, &nan)
        || is_number_chars(&body)
}

} // verus!
