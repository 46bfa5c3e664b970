//! Decimal text of integers, as `Display` writes it, and the reading of
//! signed 64-bit integers, as `str::parse::<i64>` does it.
use vstd::prelude::*;
use crate::text::push_char;

verus! {

/// The character of the decimal digit `d` (for `d` below ten).
pub open spec fn digit_char(d: nat) -> char {
    ((d + 48) as u32) as char
}

/// `c` is an ASCII decimal digit.
pub open spec fn is_digit(c: char) -> bool {
    '0' <= c && c <= '9'
}

/// The value of the ASCII decimal digit `c`.
pub open spec fn digit_value(c: char) -> int {
    c as u32 - 48
}

/// The decimal text of `n`, without leading zeros (`"0"` for zero).
pub open spec fn decimal(n: nat) -> Seq<char>
    decreases n,
{
    if n < 10 {
        seq![digit_char(n)]
    } else {
        decimal(n / 10).push(digit_char(n % 10))
    }
}

/// The text that `Display` writes for an `i64`: a minus sign before the
/// decimal text of the magnitude when negative.
pub open spec fn i64_text(n: i64) -> Seq<char> {
    if n < 0 {
        seq!['-'] + decimal((-n) as nat)
    } else {
        decimal(n as nat)
    }
}

/// Every character of `s` is a decimal digit.
pub open spec fn all_digits(s: Seq<char>) -> bool {
    forall|i: int| 0 <= i < s.len() ==> is_digit(#[trigger] s[i])
}

/// The number that the digits `s` denote.
pub open spec fn digits_value(s: Seq<char>) -> int
    decreases s.len(),
{
    if s.len() == 0 {
        0
    } else {
        digits_value(s.drop_last()) * 10 + digit_value(s.last())
    }
}

/// What `str::parse::<i64>` gives: an optional `+` or `-` sign followed by
/// at least one decimal digit and nothing else, denoting a value that fits
/// in an `i64`.
pub open spec fn parse_i64_text(s: Seq<char>) -> Option<i64> {
    let signed = s.len() > 0 && (s[0] == '-' || s[0] == '+');
    let body = if signed {
        s.drop_first()
    } else {
        s
    };
    let magnitude = digits_value(body);
    let v = if signed && s[0] == '-' {
        -magnitude
    } else {
        magnitude
    };
    if body.len() > 0 && all_digits(body) && i64::MIN <= v <= i64::MAX {
        Some(v as i64)
    } else {
        None
    }
}

/// The decimal text of `n` is made of digits, is not empty, and denotes `n`.
pub proof fn lemma_decimal(n: nat)
    ensures
        decimal(n).len() > 0,
        all_digits(decimal(n)),
        digits_value(decimal(n)) == n,
    decreases n,
{
    if n < 10 {
        assert(decimal(n).drop_last() =~= Seq::<char>::empty());
        assert(digit_value(digit_char(n)) == n);
        assert(digits_value(Seq::<char>::empty()) == 0);
    } else {
        lemma_decimal(n / 10);
        let d = decimal(n);
        assert(d.drop_last() == decimal(n / 10));
        assert(digit_value(digit_char(n % 10)) == n % 10);
        assert((n / 10) * 10 + n % 10 == n);
        assert forall|i: int| 0 <= i < d.len() implies is_digit(#[trigger] d[i]) by {
            if i < d.len() - 1 {
                assert(d[i] == decimal(n / 10)[i]);
            }
        }
    }
}

/// Reading back the text that `Display` writes for an `i64` gives that
/// `i64` again.
pub proof fn lemma_i64_text_round_trip(n: i64)
    ensures
        parse_i64_text(i64_text(n)) == Some(n),
{
    if n < 0 {
        let m = (-n) as nat;
        lemma_decimal(m);
        let s = i64_text(n);
        assert(s.drop_first() == decimal(m));
    } else {
        lemma_decimal(n as nat);
        let s = i64_text(n);
        assert(is_digit(s[0]));
    }
}

/// Digits appended one at a time.
proof fn lemma_digits_value_push(s: Seq<char>, c: char)
    ensures
        digits_value(s.push(c)) == digits_value(s) * 10 + digit_value(c),
{
    assert(s.push(c).drop_last() == s);
}

/// The character of the digit `d`.
pub fn digit_to_char(d: u8) -> (c: char)
    requires
        d < 10,
    ensures
        c == digit_char(d as nat),
        is_digit(c),
        digit_value(c) == d,
{
    let c = (d + 48) as char;
    c
}

/// Appends the decimal text of `n` to `s`.
pub fn push_decimal(s: &mut String, n: u128)
    ensures
        final(s)@ == old(s)@ + decimal(n as nat),
    decreases n,
{
    if n >= 10 {
        push_decimal(s, n / 10);
    }
    let d = (n % 10) as u8;
    let c = digit_to_char(d);
    push_char(s, c);
    proof {
        if n < 10 {
            assert(decimal(n as nat) == seq![digit_char(n as nat)]);
        }
    }
}

/// The decimal text of an unsigned integer (what `to_string` gives).
pub fn u128_to_string(n: u128) -> (s: String)
    ensures
        s@ == decimal(n as nat),
{
    let mut s = String::new();
    push_decimal(&mut s, n);
    s
}

/// The text that `Display` writes for an `i64`.
pub fn i64_to_string(n: i64) -> (s: String)
    ensures
        s@ == i64_text(n),
{
    let mut s = String::new();
    if n < 0 {
        push_char(&mut s, '-');
        let m = (0i128 - (n as i128)) as u128;
        push_decimal(&mut s, m);
    } else {
        push_decimal(&mut s, n as u128);
    }
    s
}

/// What `str::parse::<i64>` gives for the characters `v`, with the error
/// collapsed to `None`.
pub fn parse_i64(v: &Vec<char>) -> (r: Option<i64>)
    ensures
        r == parse_i64_text(v@),
{
    let signed = v.len() > 0 && (v[0] == '-' || v[0] == '+');
    let negative = v.len() > 0 && v[0] == '-';
    let start: usize = if signed {
        1
    } else {
        0
    };
    let ghost body = if signed {
        v@.drop_first()
    } else {
        v@
    };
    assert(body == v@.subrange(start as int, v.len() as int));
    if start >= v.len() {
        return None;
    }
    // Values at or above `cap` are out of range either way; the running
    // value is held at `cap` once it gets there.
    let cap: u128 = 9223372036854775809;
    let mut acc: u128 = 0;
    let mut i: usize = start;
    while i < v.len()
        invariant
            start <= i <= v.len(),
            start == (if signed { 1usize } else { 0usize }),
            signed == (v@.len() > 0 && (v@[0] == '-' || v@[0] == '+')),
            body == (if signed { v@.drop_first() } else { v@ }),
            body == v@.subrange(start as int, v.len() as int),
            cap == 9223372036854775809,
            all_digits(v@.subrange(start as int, i as int)),
            digits_value(v@.subrange(start as int, i as int)) >= 0,
            acc <= cap,
            acc < cap ==> acc == digits_value(v@.subrange(start as int, i as int)),
            acc == cap ==> digits_value(v@.subrange(start as int, i as int)) >= cap,
        decreases v.len() - i,
    {
        let c = v[i];
        if !('0' <= c && c <= '9') {
            assert(body[i - start] == c);
            assert(!is_digit(body[i - start]));
            return None;
        }
        let d = ((c as u32) - 48) as u128;
        let ghost prefix = v@.subrange(start as int, i as int);
        proof {
            assert(v@.subrange(start as int, i + 1) == prefix.push(c));
            lemma_digits_value_push(prefix, c);
        }
        if acc < cap {
            let t = acc * 10 + d;
            acc = if t >= cap {
                cap
            } else {
                t
            };
        }
        i = i + 1;
    }
    assert(v@.subrange(start as int, v.len() as int) == body);
    if negative {
        if acc <= 9223372036854775808 {
            let r = (0i128 - (acc as i128)) as i64;
            Some(r)
        } else {
            None
        }
    } else {
        if acc <= 9223372036854775807 {
            Some(acc as i64)
        } else {
            None
        }
    }
}

} // verus!
