//! Decimal rendering of numbers, as `{}`, `{:.1}` and `{:.2}` print them.

use vstd::prelude::*;

verus! {

/// The character of a decimal digit.
pub open spec fn digit_char(d: nat) -> char {
    if d == 0 {
        '0'
    } else if d == 1 {
        '1'
    } else if d == 2 {
        '2'
    } else if d == 3 {
        '3'
    } else if d == 4 {
        '4'
    } else if d == 5 {
        '5'
    } else if d == 6 {
        '6'
    } else if d == 7 {
        '7'
    } else if d == 8 {
        '8'
    } else {
        '9'
    }
}

/// Decimal digits of `n`, most significant first, without leading zeros.
pub open spec fn decimal(n: nat) -> Seq<char>
    decreases n,
{
    if n < 10 {
        seq![digit_char(n)]
    } else {
        decimal(n / 10).push(digit_char(n % 10))
    }
}

/// `num / den` rounded to the nearest integer, ties to the even one.
/// The ratio is rounded exactly. A binary floating-point computation of
/// the same ratio can fall on the other side of a tie: 23 of 80 is exactly
/// 28.75 percent, which rounds here to `28.8`, while as an `f64` it is
/// 28.749999999999996 and formats with one decimal as `28.7`.
pub open spec fn round_half_even(num: nat, den: nat) -> nat
    recommends
        den > 0,
{
    let q = num / den;
    let r = num % den;
    if 2 * r < den {
        q
    } else if 2 * r > den {
        q + 1
    } else if q % 2 == 0 {
        q
    } else {
        q + 1
    }
}

/// `part` as a percentage of `total`, in tenths of a percent, rounded;
/// zero when `total` is zero.
pub open spec fn percent_tenths(part: nat, total: nat) -> nat {
    if total == 0 {
        0
    } else {
        round_half_even(1000 * part, total)
    }
}

/// A number of tenths shown with one decimal, such as `66.7`.
pub open spec fn one_decimal(tenths: nat) -> Seq<char> {
    decimal(tenths / 10).push('.').push(digit_char(tenths % 10))
}

/// A number of hundredths shown with two decimals, such as `1.05`.
pub open spec fn two_decimals(hundredths: nat) -> Seq<char> {
    decimal(hundredths / 100).push('.').push(digit_char((hundredths % 100) / 10)).push(
        digit_char(hundredths % 10),
    )
}

/// `part` as a percentage of `total` with one decimal.
/// The ratio is rounded exactly. A binary floating-point computation of
/// the same ratio can fall on the other side of a tie: 23 of 80 is exactly
/// 28.75 percent, which rounds here to `28.8`, while as an `f64` it is
/// 28.749999999999996 and formats with one decimal as `28.7`.
pub open spec fn percent_text(part: nat, total: nat) -> Seq<char> {
    one_decimal(percent_tenths(part, total))
}

/// The one-character string of a decimal digit.
fn digit_str(d: u8) -> (s: &'static str)
    requires
        d < 10,
    ensures
        s@ == seq![digit_char(d as nat)],
{
    if d == 0 {
        proof { reveal_strlit("0"); }
        "0"
    } else if d == 1 {
        proof { reveal_strlit("1"); }
        "1"
    } else if d == 2 {
        proof { reveal_strlit("2"); }
        "2"
    } else if d == 3 {
        proof { reveal_strlit("3"); }
        "3"
    } else if d == 4 {
        proof { reveal_strlit("4"); }
        "4"
    } else if d == 5 {
        proof { reveal_strlit("5"); }
        "5"
    } else if d == 6 {
        proof { reveal_strlit("6"); }
        "6"
    } else if d == 7 {
        proof { reveal_strlit("7"); }
        "7"
    } else if d == 8 {
        proof { reveal_strlit("8"); }
        "8"
    } else {
        proof { reveal_strlit("9"); }
        "9"
    }
}

/// Append the decimal digits of `n`.
pub fn push_decimal(s: &mut String, n: u128)
    ensures
        final(s)@ == old(s)@ + decimal(n as nat),
    decreases n,
{
    if n >= 10 {
        push_decimal(s, n / 10);
    }
    let d = (n % 10) as u8;
    s.append(digit_str(d));
    proof {
        if n >= 10 {
            assert(decimal(n as nat) == decimal((n / 10) as nat).push(digit_char((n % 10) as nat)));
        }
    }
}

/// The text `decimal(n)` alone.
pub fn decimal_string(n: u128) -> (s: String)
    ensures
        s@ == decimal(n as nat),
{
    let mut s = String::new();
    push_decimal(&mut s, n);
    assert(s@ =~= decimal(n as nat));
    s
}

/// `num / den` rounded to the nearest integer, ties to the even one.
/// The ratio is rounded exactly. A binary floating-point computation of
/// the same ratio can fall on the other side of a tie: 23 of 80 is exactly
/// 28.75 percent, which rounds here to `28.8`, while as an `f64` it is
/// 28.749999999999996 and formats with one decimal as `28.7`.
pub fn round_half_even_exec(num: u128, den: u128) -> (r: u128)
    requires
        den > 0,
        num <= u128::MAX / 2,
    ensures
        r == round_half_even(num as nat, den as nat),
{
    let q = num / den;
    let r = num % den;
    assert(r < den);
    assert(q <= num);
    if r < den - r {
        q
    } else if r > den - r {
        q + 1
    } else if q % 2 == 0 {
        q
    } else {
        q + 1
    }
}

/// Append a number of tenths with one decimal.
pub fn push_one_decimal(s: &mut String, tenths: u128)
    ensures
        final(s)@ == old(s)@ + one_decimal(tenths as nat),
{
    push_decimal(s, tenths / 10);
    proof { reveal_strlit("."); }
    s.append(".");
    s.append(digit_str((tenths % 10) as u8));
    assert(s@ =~= old(s)@ + one_decimal(tenths as nat));
}

/// Append a number of hundredths with two decimals.
pub fn push_two_decimals(s: &mut String, hundredths: u128)
    ensures
        final(s)@ == old(s)@ + two_decimals(hundredths as nat),
{
    push_decimal(s, hundredths / 100);
    proof { reveal_strlit("."); }
    s.append(".");
    s.append(digit_str(((hundredths % 100) / 10) as u8));
    s.append(digit_str((hundredths % 10) as u8));
    assert(s@ =~= old(s)@ + two_decimals(hundredths as nat));
}

/// `part` as a percentage of `total`, in tenths of a percent, rounded.
pub fn percent_tenths_exec(part: u64, total: u64) -> (t: u128)
    ensures
        t == percent_tenths(part as nat, total as nat),
{
    if total == 0 {
        0
    } else {
        round_half_even_exec((part as u128) * 1000, total as u128)
    }
}

/// Append `part` as a percentage of `total` with one decimal.
/// The ratio is rounded exactly. A binary floating-point computation of
/// the same ratio can fall on the other side of a tie: 23 of 80 is exactly
/// 28.75 percent, which rounds here to `28.8`, while as an `f64` it is
/// 28.749999999999996 and formats with one decimal as `28.7`.
pub fn push_percent(s: &mut String, part: u64, total: u64)
    ensures
        final(s)@ == old(s)@ + percent_text(part as nat, total as nat),
{
    let t = percent_tenths_exec(part, total);
    push_one_decimal(s, t);
}

} // verus!
