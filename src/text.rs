//! Decimal renderings of integers, used in anomaly descriptions.

use vstd::prelude::*;

verus! {

/// The character of a decimal digit.
pub open spec fn digit_char(d: nat) -> char {
    if d == 0 {
        '0'
    } else if d == 1 {
        '1'
    } else if d == 2 {
        '2'
    } else if d == 3 {
        '3'
    } else if d == 4 {
        '4'
    } else if d == 5 {
        '5'
    } else if d == 6 {
        '6'
    } else if d == 7 {
        '7'
    } else if d == 8 {
        '8'
    } else {
        '9'
    }
}

/// Decimal digits of `n`, most significant first, without leading zeros.
pub open spec fn decimal(n: nat) -> Seq<char>
    decreases n,
{
    if n < 10 {
        seq![digit_char(n)]
    } else {
        decimal(n / 10).push(digit_char(n % 10))
    }
}

/// `n / 100` in decimal, a point, and `n % 100` as exactly two digits.
pub open spec fn hundredths(n: nat) -> Seq<char> {
    let frac = n % 100;
    decimal(n / 100) + seq!['.'] + (if frac < 10 {
        seq!['0'] + decimal(frac)
    } else {
        decimal(frac)
    })
}

/// `n / d` rounded to the nearest integer, halves up.
pub open spec fn rounded_div(n: nat, d: nat) -> nat
    recommends
        d > 0,
{
    (n + d / 2) / d as nat
}

/// Relies on the `Display` impl of `u128` (through `to_string`): plain
/// decimal digits, no sign, no padding.
#[verifier::external_body]
pub(crate) fn decimal_string(n: u128) -> (s: String)
    ensures
        s@ == decimal(n as nat),
{
    n.to_string()
}

/// Renders `n` hundredths as a number with two decimals (`1234` gives `12.34`).
pub fn hundredths_string(n: u128) -> (s: String)
    ensures
        s@ == hundredths(n as nat),
{
    let whole = decimal_string(n / 100);
    let frac = n % 100;
    let frac_text = decimal_string(frac);
    proof {
        reveal_strlit(".");
        reveal_strlit("0");
    }
    let with_point = whole.concat(".");
    if frac < 10 {
        with_point.concat("0").concat(frac_text.as_str())
    } else {
        with_point.concat(frac_text.as_str())
    }
}

} // verus!
