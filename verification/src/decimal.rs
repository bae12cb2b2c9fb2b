//! Decimal numbers (`rust_decimal::Decimal`) as the library sees them.
//!
//! A decimal is `mantissa × 10^-scale` with a scale of at most 28, so its
//! value in units of 10^-28 is an integer: [`units`]. Comparisons are stated
//! over that integer; the arithmetic results are named, not rebuilt.

use rust_decimal::Decimal;
use std::str::FromStr;
use vstd::prelude::*;

verus! {

/// `rust_decimal::Decimal`, carried through the library as an opaque value.
#[verifier::external_type_specification]
#[verifier::external_body]
pub struct ExDecimal(Decimal);

/// `Clone` of `Decimal`, a `Copy` type: the clone is the value itself.
pub assume_specification[ <Decimal as Clone>::clone ](d: &Decimal) -> (r: Decimal)
    ensures
        r == *d,
;

/// The mantissa of a decimal (`Decimal::mantissa`).
pub uninterp spec fn dec_mantissa(d: Decimal) -> i128;

/// The scale of a decimal (`Decimal::scale`).
pub uninterp spec fn dec_scale(d: Decimal) -> u32;

/// `10^n`.
pub open spec fn pow10(n: nat) -> int
    decreases n,
{
    if n == 0 {
        1
    } else {
        10 * pow10((n - 1) as nat)
    }
}

/// The value of a decimal in units of 10^-28.
pub open spec fn units(d: Decimal) -> int {
    dec_mantissa(d) * pow10((28 - dec_scale(d)) as nat)
}

/// `Decimal::mantissa`: the signed mantissa.
#[verifier::external_body]
pub fn mantissa(d: &Decimal) -> (m: i128)
    ensures
        m == dec_mantissa(*d),
{
    d.mantissa()
}

/// `Decimal::scale`: the power of ten the mantissa is divided by, at most 28.
#[verifier::external_body]
pub fn scale(d: &Decimal) -> (s: u32)
    ensures
        s == dec_scale(*d),
        s <= 28,
{
    d.scale()
}

/// `a < b` on decimals, which compares their values.
#[verifier::external_body]
pub fn dec_lt(a: &Decimal, b: &Decimal) -> (r: bool)
    ensures
        r == (units(*a) < units(*b)),
{
    *a < *b
}

/// `a == b` on decimals, which compares their values (`1.0 == 1.00`).
#[verifier::external_body]
pub fn dec_eq(a: &Decimal, b: &Decimal) -> (r: bool)
    ensures
        r == (units(*a) == units(*b)),
{
    *a == *b
}

/// `Decimal::is_zero`: whether the mantissa is zero.
#[verifier::external_body]
pub fn dec_is_zero(d: &Decimal) -> (r: bool)
    ensures
        r == (dec_mantissa(*d) == 0),
{
    d.is_zero()
}

/// What `Decimal::from` returns for an `i64` (the zero of it is `Decimal::ZERO`).
pub uninterp spec fn dec_of_int(n: i64) -> Decimal;

/// What `Decimal::new` returns for a mantissa and a scale.
pub uninterp spec fn dec_of(num: i64, s: u32) -> Decimal;

/// `Decimal::from(n)` for an `i64`: mantissa `n`, scale 0.
#[verifier::external_body]
pub fn dec_from_i64(n: i64) -> (d: Decimal)
    ensures
        d == dec_of_int(n),
        dec_mantissa(d) == n,
        dec_scale(d) == 0,
{
    Decimal::from(n)
}

/// What `Decimal::from` returns for a `u64`.
pub uninterp spec fn dec_of_u64(n: u64) -> Decimal;

/// `Decimal::from(n)` for a `u64`: mantissa `n`, scale 0.
#[verifier::external_body]
pub fn dec_from_u64(n: u64) -> (d: Decimal)
    ensures
        d == dec_of_u64(n),
        dec_mantissa(d) == n,
        dec_scale(d) == 0,
{
    Decimal::from(n)
}

/// What `Decimal::from` returns for a `u32`.
pub uninterp spec fn dec_of_u32(n: u32) -> Decimal;

/// `Decimal::from(n)` for a `u32`: mantissa `n`, scale 0.
#[verifier::external_body]
pub fn dec_from_u32(n: u32) -> (d: Decimal)
    ensures
        d == dec_of_u32(n),
        dec_mantissa(d) == n,
        dec_scale(d) == 0,
{
    Decimal::from(n)
}

/// What `Decimal::from` returns for a `usize`.
pub uninterp spec fn dec_of_usize(n: usize) -> Decimal;

/// `Decimal::from(n)` for a `usize`: mantissa `n`, scale 0.
#[verifier::external_body]
pub fn dec_from_usize(n: usize) -> (d: Decimal)
    ensures
        d == dec_of_usize(n),
        dec_mantissa(d) == n,
        dec_scale(d) == 0,
{
    Decimal::from(n)
}

/// `Decimal::new(num, scale)`: mantissa `num`, the given scale (at most 28,
/// above which it panics).
#[verifier::external_body]
pub fn dec_new(num: i64, s: u32) -> (d: Decimal)
    requires
        s <= 28,
    ensures
        d == dec_of(num, s),
        dec_mantissa(d) == num,
        dec_scale(d) == s,
{
    Decimal::new(num, s)
}

/// What `Decimal::checked_add` returns: the sum, or `None` on overflow.
pub uninterp spec fn dec_add(a: Decimal, b: Decimal) -> Option<Decimal>;

/// What `Decimal::checked_sub` returns: the difference, or `None` on overflow.
pub uninterp spec fn dec_sub(a: Decimal, b: Decimal) -> Option<Decimal>;

/// What `Decimal::checked_mul` returns: the product, or `None` on overflow.
pub uninterp spec fn dec_mul(a: Decimal, b: Decimal) -> Option<Decimal>;

/// What `Decimal::checked_div` returns: the quotient, or `None` for a zero
/// divisor or on overflow.
pub uninterp spec fn dec_div(a: Decimal, b: Decimal) -> Option<Decimal>;

/// What `Decimal::abs` returns.
pub uninterp spec fn dec_abs(d: Decimal) -> Decimal;

/// `Decimal::abs`: the same mantissa magnitude and scale, with a positive sign.
#[verifier::external_body]
pub fn abs(d: &Decimal) -> (r: Decimal)
    ensures
        r == dec_abs(*d),
        dec_mantissa(r) == if dec_mantissa(*d) < 0 { -dec_mantissa(*d) } else { dec_mantissa(*d) as int },
        dec_scale(r) == dec_scale(*d),
{
    d.abs()
}

/// What `Decimal::floor` returns: the largest integer not above the value.
pub uninterp spec fn dec_floor(d: Decimal) -> Decimal;

/// What `Decimal::to_string` returns.
pub uninterp spec fn dec_text(d: Decimal) -> Seq<char>;

/// What `Decimal::from_str` returns for a text: the decimal, or `None` when
/// the text is not a decimal number.
pub uninterp spec fn dec_parse(s: Seq<char>) -> Option<Decimal>;

/// `Decimal::checked_add`.
#[verifier::external_body]
pub fn checked_add(a: &Decimal, b: &Decimal) -> (r: Option<Decimal>)
    ensures
        r == dec_add(*a, *b),
{
    a.checked_add(*b)
}

/// `Decimal::checked_sub`.
#[verifier::external_body]
pub fn checked_sub(a: &Decimal, b: &Decimal) -> (r: Option<Decimal>)
    ensures
        r == dec_sub(*a, *b),
{
    a.checked_sub(*b)
}

/// `Decimal::checked_mul`.
#[verifier::external_body]
pub fn checked_mul(a: &Decimal, b: &Decimal) -> (r: Option<Decimal>)
    ensures
        r == dec_mul(*a, *b),
{
    a.checked_mul(*b)
}

/// `Decimal::checked_div`; `None` whenever the divisor is zero.
#[verifier::external_body]
pub fn checked_div(a: &Decimal, b: &Decimal) -> (r: Option<Decimal>)
    ensures
        r == dec_div(*a, *b),
        dec_mantissa(*b) == 0 ==> r is None,
{
    a.checked_div(*b)
}

/// `Decimal::floor`.
#[verifier::external_body]
pub fn floor(d: &Decimal) -> (r: Decimal)
    ensures
        r == dec_floor(*d),
{
    d.floor()
}

/// `Decimal::to_string`.
#[verifier::external_body]
pub fn to_text(d: &Decimal) -> (s: String)
    ensures
        s@ == dec_text(*d),
{
    d.to_string()
}

/// `Decimal::from_str`: the decimal of a text, or the error's `Display`
/// text (of which nothing is stated) where the text is not a decimal.
#[verifier::external_body]
pub fn decimal_from_str(s: &str) -> (r: Result<Decimal, String>)
    ensures
        match r {
            Ok(d) => dec_parse(s@) == Some(d),
            Err(_) => dec_parse(s@) is None,
        },
{
    match Decimal::from_str(s) {
        Ok(d) => Ok(d),
        Err(e) => Err(e.to_string()),
    }
}

/// The decimal of a text, `None` when it is not one.
pub fn parse_decimal(s: &str) -> (r: Option<Decimal>)
    ensures
        r == dec_parse(s@),
{
    match decimal_from_str(s) {
        Ok(d) => Some(d),
        Err(_) => None,
    }
}

/// Whether `a <= b` in value.
pub open spec fn dec_le(a: Decimal, b: Decimal) -> bool {
    units(a) <= units(b)
}

} // verus!
