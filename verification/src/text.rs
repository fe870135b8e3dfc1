//! Decimal rendering of integers and the `HH:MM:SS` clock text.

use vstd::prelude::*;
use crate::duration::{Duration, NANOS_PER_SEC};

verus! {

/// `String::push` appends one character.
pub assume_specification[ String::push ](s: &mut String, ch: char)
    ensures
        final(s)@ == old(s)@.push(ch),
;

/// The character of a decimal digit.
pub open spec fn digit(d: nat) -> char {
    if d == 0 {
        '0'
    } else if d == 1 {
        '1'
    } else if d == 2 {
        '2'
    } else if d == 3 {
        '3'
    } else if d == 4 {
        '4'
    } else if d == 5 {
        '5'
    } else if d == 6 {
        '6'
    } else if d == 7 {
        '7'
    } else if d == 8 {
        '8'
    } else {
        '9'
    }
}

/// The decimal digits of `n`, most significant first, without leading zeros
/// (`0` is written as a single `0`).
pub open spec fn decimal(n: nat) -> Seq<char>
    decreases n,
{
    if n < 10 {
        seq![digit(n)]
    } else {
        decimal(n / 10).push(digit(n % 10))
    }
}

/// `n` in decimal, padded on the left with `0` to at least two characters
/// (the `{:02}` format).
pub open spec fn padded2(n: nat) -> Seq<char> {
    if n < 10 {
        seq!['0', digit(n)]
    } else {
        decimal(n)
    }
}

/// The clock text `HH:MM:SS` of a number of whole seconds; the hours are not
/// limited to two digits.
pub open spec fn clock_text(secs: nat) -> Seq<char> {
    padded2(secs / 3600) + seq![':'] + padded2((secs % 3600) / 60) + seq![':'] + padded2(secs % 60)
}

/// The character of the decimal digit `d`.
pub fn digit_char(d: u64) -> (c: char)
    requires
        d < 10,
    ensures
        c == digit(d as nat),
{
    if d == 0 {
        '0'
    } else if d == 1 {
        '1'
    } else if d == 2 {
        '2'
    } else if d == 3 {
        '3'
    } else if d == 4 {
        '4'
    } else if d == 5 {
        '5'
    } else if d == 6 {
        '6'
    } else if d == 7 {
        '7'
    } else if d == 8 {
        '8'
    } else {
        '9'
    }
}

/// Appends the decimal digits of `n`.
pub fn push_decimal(s: &mut String, n: u64)
    ensures
        final(s)@ == old(s)@ + decimal(n as nat),
    decreases n,
{
    if n >= 10 {
        push_decimal(s, n / 10);
    }
    s.push(digit_char(n % 10));
    proof {
        if n < 10 {
            assert(n % 10 == n);
        }
        assert(final(s)@ =~= old(s)@ + decimal(n as nat)) by {
            if n >= 10 {
                assert(decimal(n as nat) == decimal((n / 10) as nat).push(digit((n % 10) as nat)));
            }
        }
    }
}

/// Appends `n` in decimal, padded with `0` to at least two characters.
pub fn push_padded2(s: &mut String, n: u64)
    ensures
        final(s)@ == old(s)@ + padded2(n as nat),
{
    if n < 10 {
        s.push('0');
        s.push(digit_char(n));
        assert(s@ =~= old(s)@ + padded2(n as nat));
    } else {
        push_decimal(s, n);
    }
}

/// The decimal text of `n`.
pub fn decimal_string(n: u64) -> (r: String)
    ensures
        r@ == decimal(n as nat),
{
    let mut s = String::new();
    push_decimal(&mut s, n);
    assert(s@ =~= decimal(n as nat));
    s
}

/// The whole seconds of `duration` as `HH:MM:SS`.
pub fn format_duration(duration: Duration) -> (r: String)
    ensures
        r@ == clock_text(duration@ / (NANOS_PER_SEC as nat)),
{
    let total_secs = duration.as_secs();
    let hours = total_secs / 3600;
    let minutes = (total_secs % 3600) / 60;
    let seconds = total_secs % 60;
    let mut s = String::new();
    push_padded2(&mut s, hours);
    s.push(':');
    push_padded2(&mut s, minutes);
    s.push(':');
    push_padded2(&mut s, seconds);
    assert(s@ =~= clock_text(total_secs as nat));
    s
}

} // verus!
