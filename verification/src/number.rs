//! Unsigned decimal numbers as they are written in operand fields.
//!
//! A number is an optional `+` followed by one or more of the digits `0` to
//! `9`. Leading zeros are allowed. A field holds a number of a given width
//! when it is a number and its value does not exceed the width's maximum.

use vstd::prelude::*;
use vstd::slice::slice_subrange;

verus! {

/// True of the ten decimal digits.
pub open spec fn is_digit(c: char) -> bool {
    '0' <= c <= '9'
}

/// The value of a decimal digit.
pub open spec fn digit_value(c: char) -> nat
    recommends
        is_digit(c),
{
    (c as int - '0' as int) as nat
}

/// True when every character of `s` is a decimal digit.
pub open spec fn all_digits(s: Seq<char>) -> bool {
    forall|i: int| 0 <= i < s.len() ==> is_digit(#[trigger] s[i])
}

/// The value of a string of decimal digits, most significant digit first.
pub open spec fn digits_value(s: Seq<char>) -> nat
    recommends
        all_digits(s),
    decreases s.len(),
{
    if s.len() == 0 {
        0
    } else {
        10 * digits_value(s.drop_last()) + digit_value(s.last())
    }
}

/// What is left of `s` once a leading `+` is taken off.
pub open spec fn unsigned_part(s: Seq<char>) -> Seq<char> {
    if s.len() > 0 && s[0] == '+' {
        s.drop_first()
    } else {
        s
    }
}

/// The number that `s` denotes, if it denotes one.
pub open spec fn decimal_value(s: Seq<char>) -> Option<nat> {
    let digits = unsigned_part(s);
    if digits.len() > 0 && all_digits(digits) {
        Some(digits_value(digits))
    } else {
        None
    }
}

/// The number that `s` denotes, if it denotes one that is at most `max`.
pub open spec fn bounded_value(s: Seq<char>, max: nat) -> Option<nat> {
    match decimal_value(s) {
        Some(n) => if n <= max {
            Some(n)
        } else {
            None
        },
        None => None,
    }
}

/// The value of a prefix of a digit string never exceeds that of the whole.
pub proof fn lemma_digits_value_prefix(s: Seq<char>, k: int)
    requires
        0 <= k <= s.len(),
    ensures
        digits_value(s.take(k)) <= digits_value(s),
    decreases s.len(),
{
    if k == s.len() {
        assert(s.take(k) == s);
    } else {
        lemma_digits_value_prefix(s.drop_last(), k);
        assert(s.drop_last().take(k) == s.take(k));
    }
}

/// Reads the field `s` as a number that is at most `max`.
pub fn parse_bounded(s: &[char], max: usize) -> (r: Option<usize>)
    ensures
        match bounded_value(s@, max as nat) {
            Some(n) => r == Some(n as usize),
            None => r is None,
        },
{
    let digits = if s.len() > 0 && s[0] == '+' {
        slice_subrange(s, 1, s.len())
    } else {
        s
    };
    assert(digits@ == unsigned_part(s@));
    let n = digits.len();
    if n == 0 {
        return None;
    }
    let mut value: usize = 0;
    let mut i: usize = 0;
    while i < n
        invariant
            digits@ == unsigned_part(s@),
            n == digits@.len(),
            0 < n,
            i <= n,
            all_digits(digits@.take(i as int)),
            value == digits_value(digits@.take(i as int)),
            value <= max,
        decreases n - i,
    {
        let c = digits[i];
        if !('0' <= c && c <= '9') {
            assert(!is_digit(digits@[i as int]));
            return None;
        }
        let d = (c as usize) - ('0' as usize);
        proof {
            let next = digits@.take(i + 1);
            assert(next.drop_last() == digits@.take(i as int));
            assert(next.last() == c);
            assert(digits_value(next) == 10 * value + d);
            assert forall|j: int| 0 <= j < next.len() implies is_digit(#[trigger] next[j]) by {
                if j < i {
                    assert(digits@.take(i as int)[j] == next[j]);
                }
            }
            lemma_digits_value_prefix(digits@, i + 1);
        }
        if d > max || value > (max - d) / 10 {
            return None;
        }
        value = 10 * value + d;
        i += 1;
    }
    assert(digits@.take(n as int) == digits@);
    Some(value)
}

} // verus!
