//! Decimal numbers as text: reading and writing integers, and the grammar of
//! a floating-point literal.

use vstd::prelude::*;
use crate::text::slice_of;

verus! {

/// Whether `c` is one of the ten ASCII digits.
pub open spec fn is_digit(c: char) -> bool {
    0x30 <= c as u32 <= 0x39
}

/// The value of a digit; 0 for any other character.
pub open spec fn digit_value(c: char) -> nat {
    if is_digit(c) {
        (c as u32 - 0x30) as nat
    } else {
        0
    }
}

/// The digit that stands for `d`, which is below ten.
pub open spec fn digit_char(d: nat) -> char {
    if d == 0 {
        '0'
    } else if d == 1 {
        '1'
    } else if d == 2 {
        '2'
    } else if d == 3 {
        '3'
    } else if d == 4 {
        '4'
    } else if d == 5 {
        '5'
    } else if d == 6 {
        '6'
    } else if d == 7 {
        '7'
    } else if d == 8 {
        '8'
    } else {
        '9'
    }
}

/// Whether every character of `s` is a digit.
pub open spec fn all_digits(s: Seq<char>) -> bool {
    forall|i: int| 0 <= i < s.len() ==> is_digit(#[trigger] s[i])
}

/// The number that a run of digits denotes in base ten.
pub open spec fn decimal_value(s: Seq<char>) -> nat
    decreases s.len(),
{
    if s.len() == 0 {
        0
    } else {
        decimal_value(s.drop_last()) * 10 + digit_value(s.last())
    }
}

/// `s` without one leading `+`.
pub open spec fn without_plus(s: Seq<char>) -> Seq<char> {
    if s.len() > 0 && s[0] == '+' {
        s.drop_first()
    } else {
        s
    }
}

/// `s` without one leading `+` or `-`.
pub open spec fn without_sign(s: Seq<char>) -> Seq<char> {
    if s.len() > 0 && (s[0] == '+' || s[0] == '-') {
        s.drop_first()
    } else {
        s
    }
}

/// The natural number that `s` denotes: an optional `+` and at least one
/// digit, with a value of at most `max`. Anything else denotes none.
pub open spec fn parse_unsigned(s: Seq<char>, max: nat) -> Option<nat> {
    let body = without_plus(s);
    if body.len() > 0 && all_digits(body) && decimal_value(body) <= max {
        Some(decimal_value(body))
    } else {
        None
    }
}

/// The integer that `s` denotes: an optional `+` or `-` and at least one
/// digit, with a value from `min` to `max`. Anything else denotes none.
pub open spec fn parse_signed(s: Seq<char>, min: int, max: int) -> Option<int> {
    let body = without_sign(s);
    let value = if s.len() > 0 && s[0] == '-' {
        -(decimal_value(body) as int)
    } else {
        decimal_value(body) as int
    };
    if body.len() > 0 && all_digits(body) && min <= value <= max {
        Some(value)
    } else {
        None
    }
}

/// The `usize` that `s` denotes, as `str::parse::<usize>` reads it.
pub open spec fn parse_usize(s: Seq<char>) -> Option<usize> {
    match parse_unsigned(s, usize::MAX as nat) {
        Some(n) => Some(n as usize),
        None => None,
    }
}

/// The `i32` that `s` denotes, as `str::parse::<i32>` reads it.
pub open spec fn parse_i32(s: Seq<char>) -> Option<i32> {
    match parse_signed(s, i32::MIN as int, i32::MAX as int) {
        Some(n) => Some(n as i32),
        None => None,
    }
}

/// The boolean that `s` denotes: exactly `true` or `false`.
pub open spec fn parse_bool(s: Seq<char>) -> Option<bool> {
    if s == seq!['t', 'r', 'u', 'e'] {
        Some(true)
    } else if s == seq!['f', 'a', 'l', 's', 'e'] {
        Some(false)
    } else {
        None
    }
}

/// A natural number in base ten, without leading zeros.
pub open spec fn render_nat(n: nat) -> Seq<char>
    decreases n,
{
    if n < 10 {
        seq![digit_char(n)]
    } else {
        render_nat(n / 10).push(digit_char(n % 10))
    }
}

/// An integer in base ten, with `-` before a negative one.
pub open spec fn render_int(v: int) -> Seq<char> {
    if v < 0 {
        seq!['-'] + render_nat((-v) as nat)
    } else {
        render_nat(v as nat)
    }
}

/// A boolean as `true` or `false`.
pub open spec fn render_bool(b: bool) -> Seq<char> {
    if b {
        seq!['t', 'r', 'u', 'e']
    } else {
        seq!['f', 'a', 'l', 's', 'e']
    }
}

/// The value of a prefix of a text is at most the value of the text.
pub proof fn lemma_decimal_value_prefix(s: Seq<char>, k: int)
    requires
        0 <= k <= s.len(),
    ensures
        decimal_value(s.take(k)) <= decimal_value(s),
    decreases s.len() - k,
{
    if k == s.len() {
        assert(s.take(k) =~= s);
    } else {
        lemma_decimal_value_prefix(s.drop_last(), k);
        assert(s.drop_last().take(k) =~= s.take(k));
    }
}

/// What `render_nat` writes is a nonempty run of digits with the value that
/// was written.
pub proof fn lemma_render_nat(n: nat)
    ensures
        render_nat(n).len() >= 1,
        all_digits(render_nat(n)),
        decimal_value(render_nat(n)) == n,
    decreases n,
{
    if n < 10 {
        let s = render_nat(n);
        assert(s.drop_last() =~= Seq::<char>::empty());
        assert(decimal_value(s.drop_last()) == 0);
        assert(s.last() == digit_char(n));
    } else {
        lemma_render_nat(n / 10);
        let s = render_nat(n);
        assert(s.drop_last() =~= render_nat(n / 10));
        assert(s.last() == digit_char(n % 10));
        assert forall|i: int| 0 <= i < s.len() implies is_digit(#[trigger] s[i]) by {
            if i < s.len() - 1 {
                assert(s[i] == render_nat(n / 10)[i]);
            }
        }
    }
}

/// Reading what `render_nat` wrote gives the number back.
pub proof fn lemma_parse_render_nat(n: nat, max: nat)
    requires
        n <= max,
    ensures
        parse_unsigned(render_nat(n), max) == Some(n),
{
    lemma_render_nat(n);
    assert(is_digit(render_nat(n)[0]));
}

/// Reading what `render_int` wrote gives the integer back.
pub proof fn lemma_parse_render_int(v: int, min: int, max: int)
    requires
        min <= v <= max,
    ensures
        parse_signed(render_int(v), min, max) == Some(v),
{
    if v < 0 {
        lemma_render_nat((-v) as nat);
        let s = render_int(v);
        assert(s[0] == '-');
        assert(s.drop_first() =~= render_nat((-v) as nat));
    } else {
        lemma_render_nat(v as nat);
        assert(is_digit(render_nat(v as nat)[0]));
    }
}

/// What `render_int` writes holds only digits and `-`.
pub proof fn lemma_render_int_chars(v: int)
    ensures
        render_int(v).len() >= 1,
        forall|i: int|
            0 <= i < render_int(v).len() ==> is_digit(#[trigger] render_int(v)[i]) || render_int(
                v,
            )[i] == '-',
{
    if v < 0 {
        lemma_render_nat((-v) as nat);
        let s = render_int(v);
        assert forall|i: int| 0 <= i < s.len() implies is_digit(#[trigger] s[i]) || s[i]
            == '-' by {
            if i > 0 {
                assert(s[i] == render_nat((-v) as nat)[i - 1]);
            }
        }
    } else {
        lemma_render_nat(v as nat);
    }
}

/// Decides `is_digit`.
pub fn is_digit_char(c: char) -> (r: bool)
    ensures
        r == is_digit(c),
{
    let n: u32 = c as u32;
    0x30 <= n && n <= 0x39
}

/// The digit that stands for `d`.
pub fn digit_of(d: u64) -> (c: char)
    requires
        d < 10,
    ensures
        c == digit_char(d as nat),
{
    if d == 0 {
        '0'
    } else if d == 1 {
        '1'
    } else if d == 2 {
        '2'
    } else if d == 3 {
        '3'
    } else if d == 4 {
        '4'
    } else if d == 5 {
        '5'
    } else if d == 6 {
        '6'
    } else if d == 7 {
        '7'
    } else if d == 8 {
        '8'
    } else {
        '9'
    }
}

/// Reads a run of digits with a value of at most `max`.
pub fn parse_digits(v: &Vec<char>, max: u64) -> (r: Option<u64>)
    ensures
        r is Some <==> v@.len() > 0 && all_digits(v@) && decimal_value(v@) <= max,
        r is Some ==> r->0 == decimal_value(v@),
{
    if v.len() == 0 {
        return None;
    }
    let mut acc: u128 = 0;
    let mut i: usize = 0;
    assert(v@.take(0) =~= Seq::<char>::empty());
    while i < v.len()
        invariant
            i <= v@.len(),
            all_digits(v@.take(i as int)),
            acc == decimal_value(v@.take(i as int)),
            acc <= max,
        decreases v@.len() - i,
    {
        let c = v[i];
        proof {
            assert(v@.take(i + 1).drop_last() =~= v@.take(i as int));
            assert(v@.take(i + 1).last() == c);
            lemma_decimal_value_prefix(v@, i + 1);
        }
        if !is_digit_char(c) {
            assert(!all_digits(v@)) by {
                assert(!is_digit(v@[i as int]));
            }
            return None;
        }
        let d: u128 = (c as u32 - 0x30) as u128;
        let next: u128 = acc * 10 + d;
        if next > max as u128 {
            return None;
        }
        acc = next;
        i += 1;
        proof {
            assert forall|j: int| 0 <= j < i implies is_digit(#[trigger] v@.take(i as int)[j]) by {
                if j < i - 1 {
                    assert(v@.take(i as int)[j] == v@.take(i - 1)[j]);
                }
            }
        }
    }
    assert(v@.take(v@.len() as int) =~= v@);
    Some(acc as u64)
}

/// Reads a `usize` as `str::parse::<usize>` does.
pub fn parse_usize_chars(v: &Vec<char>) -> (r: Option<usize>)
    ensures
        r == parse_usize(v@),
{
    let n: usize = v.len();
    let body = if n > 0 && v[0] == '+' {
        slice_of(v, 1, n)
    } else {
        slice_of(v, 0, n)
    };
    assert(body@ =~= without_plus(v@));
    match parse_digits(&body, usize::MAX as u64) {
        Some(value) => Some(value as usize),
        None => None,
    }
}

/// Reads an `i32` as `str::parse::<i32>` does.
pub fn parse_i32_chars(v: &Vec<char>) -> (r: Option<i32>)
    ensures
        r == parse_i32(v@),
{
    let n: usize = v.len();
    let negative: bool = n > 0 && v[0] == '-';
    let body = if n > 0 && (v[0] == '+' || v[0] == '-') {
        slice_of(v, 1, n)
    } else {
        slice_of(v, 0, n)
    };
    assert(body@ =~= without_sign(v@));
    if negative {
        match parse_digits(&body, 0x8000_0000) {
            Some(value) => Some((0 - value as i64) as i32),
            None => None,
        }
    } else {
        match parse_digits(&body, 0x7fff_ffff) {
            Some(value) => Some(value as i32),
            None => None,
        }
    }
}

/// Reads `true` or `false`.
pub fn parse_bool_chars(v: &Vec<char>) -> (r: Option<bool>)
    ensures
        r == parse_bool(v@),
{
    if v.len() == 4 && v[0] == 't' && v[1] == 'r' && v[2] == 'u' && v[3] == 'e' {
        assert(v@ =~= seq!['t', 'r', 'u', 'e']);
        Some(true)
    } else if v.len() == 5 && v[0] == 'f' && v[1] == 'a' && v[2] == 'l' && v[3] == 's' && v[4]
        == 'e' {
        assert(v@ =~= seq!['f', 'a', 'l', 's', 'e']);
        Some(false)
    } else {
        proof {
            if v@ == seq!['t', 'r', 'u', 'e'] {
                assert(v@.len() == 4);
            }
            if v@ == seq!['f', 'a', 'l', 's', 'e'] {
                assert(v@.len() == 5);
            }
        }
        None
    }
}

/// Writes a natural number in base ten.
pub fn render_u64(n: u64) -> (r: Vec<char>)
    ensures
        r@ == render_nat(n as nat),
    decreases n,
{
    if n < 10 {
        let mut r: Vec<char> = Vec::new();
        r.push(digit_of(n));
        assert(r@ =~= render_nat(n as nat));
        r
    } else {
        let mut r = render_u64(n / 10);
        r.push(digit_of(n % 10));
        r
    }
}

/// Writes an `i32` in base ten.
pub fn render_i32(v: i32) -> (r: Vec<char>)
    ensures
        r@ == render_int(v as int),
{
    if v < 0 {
        let mut r: Vec<char> = Vec::new();
        r.push('-');
        let digits = render_u64((0 - v as i64) as u64);
        crate::text::append_chars(&mut r, &digits);
        assert(r@ =~= render_int(v as int));
        r
    } else {
        render_u64(v as u64)
    }
}

/// Writes a boolean as `true` or `false`.
pub fn render_bool_chars(b: bool) -> (r: Vec<char>)
    ensures
        r@ == render_bool(b),
{
    let mut r: Vec<char> = Vec::new();
    if b {
        r.push('t');
        r.push('r');
        r.push('u');
        r.push('e');
        assert(r@ =~= render_bool(b));
    } else {
        r.push('f');
        r.push('a');
        r.push('l');
        r.push('s');
        r.push('e');
        assert(r@ =~= render_bool(b));
    }
    r
}

} // verus!
