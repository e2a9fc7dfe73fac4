//! Decimal rendering of integers into strings.

use vstd::prelude::*;
use vstd::string::*;

verus! {

/// The ten decimal digits, in order.
pub open spec fn digit_table() -> Seq<char> {
    "0123456789"@
}

/// The character that stands for the digit `d`.
pub open spec fn digit_char(d: nat) -> char
    recommends
        d < 10,
{
    digit_table()[d as int]
}

/// The decimal digits of `n`, most significant first, without leading zeros.
pub open spec fn decimal_digits(n: nat) -> Seq<char>
    decreases n,
{
    if n < 10 {
        seq![digit_char(n)]
    } else {
        decimal_digits(n / 10).push(digit_char(n % 10))
    }
}

/// The decimal text of a signed integer: a minus sign for negative values,
/// then the digits of the magnitude.
pub open spec fn signed_digits(n: int) -> Seq<char> {
    if n < 0 {
        seq!['-'] + decimal_digits((-n) as nat)
    } else {
        decimal_digits(n as nat)
    }
}

/// The text of a value given in hundredths: the whole part, a point, and
/// exactly two fractional digits.
pub open spec fn hundredths_digits(n: nat) -> Seq<char> {
    decimal_digits(n / 100).push('.').push(digit_char((n / 10) % 10)).push(digit_char(n % 10))
}

/// The one-character string of a single decimal digit.
pub fn digit_str(d: u8) -> (s: &'static str)
    requires
        d < 10,
    ensures
        s@ == seq![digit_char(d as nat)],
{
    proof {
        reveal_strlit("0123456789");
    }
    let s = "0123456789".substring_char(d as usize, d as usize + 1);
    assert(s@ =~= seq![digit_char(d as nat)]);
    s
}

/// Renders an unsigned integer in decimal.
pub fn format_u64(n: u64) -> (s: String)
    ensures
        s@ == decimal_digits(n as nat),
    decreases n,
{
    if n < 10 {
        String::from_str(digit_str(n as u8))
    } else {
        let mut s = format_u64(n / 10);
        s.append(digit_str((n % 10) as u8));
        assert(s@ =~= decimal_digits(n as nat));
        s
    }
}

/// Renders a signed integer in decimal, with a leading minus sign when it is
/// negative.
pub fn format_i64(n: i64) -> (s: String)
    ensures
        s@ == signed_digits(n as int),
{
    if n >= 0 {
        format_u64(n as u64)
    } else {
        let magnitude: u64 = (-(n + 1)) as u64 + 1;
        let mut s = String::from_str("-");
        let digits = format_u64(magnitude);
        s.append(digits.as_str());
        proof {
            reveal_strlit("-");
            assert(s@ =~= signed_digits(n as int));
        }
        s
    }
}

/// Renders a value given in hundredths with two fractional digits, as in
/// `12.05` for 1205.
pub fn format_hundredths(n: u64) -> (s: String)
    ensures
        s@ == hundredths_digits(n as nat),
{
    let mut s = format_u64(n / 100);
    s.append(".");
    s.append(digit_str(((n / 10) % 10) as u8));
    s.append(digit_str((n % 10) as u8));
    proof {
        reveal_strlit(".");
        assert(s@ =~= hundredths_digits(n as nat));
    }
    s
}

} // verus!
