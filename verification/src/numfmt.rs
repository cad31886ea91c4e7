//! Decimal rendering of the 16-bit numbers that tokens carry.

use crate::text::chars_to_string;
use vstd::prelude::*;

verus! {

/// The decimal digit character of `d`, for `0 <= d <= 9`.
pub open spec fn digit_char(d: int) -> char {
    if d == 0 {
        '0'
    } else if d == 1 {
        '1'
    } else if d == 2 {
        '2'
    } else if d == 3 {
        '3'
    } else if d == 4 {
        '4'
    } else if d == 5 {
        '5'
    } else if d == 6 {
        '6'
    } else if d == 7 {
        '7'
    } else if d == 8 {
        '8'
    } else {
        '9'
    }
}

/// The decimal digits of a non-negative integer, most significant
/// first, with no leading zeros (a single `'0'` for zero).
pub open spec fn dec_digits(n: int) -> Seq<char>
    decreases n,
{
    if n < 10 {
        seq![digit_char(n)]
    } else {
        dec_digits(n / 10).push(digit_char(n % 10))
    }
}

/// The standard decimal string of an integer: a minus sign followed by
/// the digits when negative, the digits alone otherwise.
pub open spec fn int_str(n: int) -> Seq<char> {
    if n < 0 {
        seq!['-'] + dec_digits(-n)
    } else {
        dec_digits(n)
    }
}

fn digit_to_char(d: u32) -> (c: char)
    requires
        d < 10,
    ensures
        c == digit_char(d as int),
{
    if d == 0 {
        '0'
    } else if d == 1 {
        '1'
    } else if d == 2 {
        '2'
    } else if d == 3 {
        '3'
    } else if d == 4 {
        '4'
    } else if d == 5 {
        '5'
    } else if d == 6 {
        '6'
    } else if d == 7 {
        '7'
    } else if d == 8 {
        '8'
    } else {
        '9'
    }
}

fn u32_digits(n: u32) -> (v: Vec<char>)
    ensures
        v@ == dec_digits(n as int),
    decreases n,
{
    if n < 10 {
        let mut v: Vec<char> = Vec::new();
        v.push(digit_to_char(n));
        proof {
            assert(v@ =~= dec_digits(n as int));
        }
        v
    } else {
        let mut v = u32_digits(n / 10);
        v.push(digit_to_char(n % 10));
        v
    }
}

/// Renders a 16-bit signed integer as its standard decimal string.
pub fn i16_to_string(n: i16) -> (s: String)
    ensures
        s@ == int_str(n as int),
{
    let m: i32 = n as i32;
    if m < 0 {
        let mut v: Vec<char> = Vec::new();
        v.push('-');
        let mut d = u32_digits((-m) as u32);
        v.append(&mut d);
        proof {
            assert(v@ =~= int_str(n as int));
        }
        chars_to_string(&v)
    } else {
        let v = u32_digits(m as u32);
        chars_to_string(&v)
    }
}

} // verus!
