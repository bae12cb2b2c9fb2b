//! Position sizing helpers.
//!
//! The arithmetic of `rust_decimal` panics on overflow; each helper states
//! its result over the checked operations, requires that they succeed, and
//! has a `try_` companion that returns `None` where one overflows.

use crate::decimal::{
    abs, checked_div, checked_mul, checked_sub, dec_abs, dec_div, dec_floor, dec_from_i64, dec_is_zero, dec_mantissa,
    dec_mul, dec_of_int, dec_sub, floor,
};
use rust_decimal::Decimal;
use vstd::prelude::*;

verus! {

/// `balance × percent / 100`.
pub open spec fn percent_of_balance_spec(balance: Decimal, percent: Decimal) -> Option<Decimal> {
    match dec_mul(balance, percent) {
        Some(p) => dec_div(p, dec_of_int(100)),
        None => None,
    }
}

/// `risk / |entry − stop|`, zero for a zero distance.
pub open spec fn risk_based_spec(risk_amount: Decimal, entry_price: Decimal, stop_price: Decimal) -> Option<Decimal> {
    match dec_sub(entry_price, stop_price) {
        Some(d) => if dec_mantissa(dec_abs(d)) == 0 {
            Some(dec_of_int(0))
        } else {
            dec_div(risk_amount, dec_abs(d))
        },
        None => None,
    }
}

/// `notional / price`, zero for a zero price.
pub open spec fn fixed_notional_spec(notional: Decimal, price: Decimal) -> Option<Decimal> {
    if dec_mantissa(price) == 0 {
        Some(dec_of_int(0))
    } else {
        dec_div(notional, price)
    }
}

/// `floor(size / lot) × lot`, the size itself for a zero lot.
pub open spec fn round_to_lot_spec(size: Decimal, lot_size: Decimal) -> Option<Decimal> {
    if dec_mantissa(lot_size) == 0 {
        Some(size)
    } else {
        match dec_div(size, lot_size) {
            Some(q) => dec_mul(dec_floor(q), lot_size),
            None => None,
        }
    }
}

/// Position size as a percentage of a balance, `None` on overflow.
pub fn try_percent_of_balance(balance: Decimal, percent: Decimal) -> (r: Option<Decimal>)
    ensures
        r == percent_of_balance_spec(balance, percent),
{
    match checked_mul(&balance, &percent) {
        Some(p) => checked_div(&p, &dec_from_i64(100)),
        None => None,
    }
}

/// Position size as a percentage of a balance.
pub fn percent_of_balance(balance: Decimal, percent: Decimal) -> (r: Decimal)
    requires
        percent_of_balance_spec(balance, percent) is Some,
    ensures
        Some(r) == percent_of_balance_spec(balance, percent),
{
    try_percent_of_balance(balance, percent).unwrap()
}

/// Position size from a risk amount and the stop distance, `None` on overflow.
pub fn try_risk_based(risk_amount: Decimal, entry_price: Decimal, stop_price: Decimal) -> (r: Option<Decimal>)
    ensures
        r == risk_based_spec(risk_amount, entry_price, stop_price),
{
    match checked_sub(&entry_price, &stop_price) {
        Some(d) => {
            let distance = abs(&d);
            if dec_is_zero(&distance) {
                Some(dec_from_i64(0))
            } else {
                checked_div(&risk_amount, &distance)
            }
        },
        None => None,
    }
}

/// Position size from a risk amount and the stop distance.
pub fn risk_based(risk_amount: Decimal, entry_price: Decimal, stop_price: Decimal) -> (r: Decimal)
    requires
        risk_based_spec(risk_amount, entry_price, stop_price) is Some,
    ensures
        Some(r) == risk_based_spec(risk_amount, entry_price, stop_price),
{
    try_risk_based(risk_amount, entry_price, stop_price).unwrap()
}

/// Position size for a fixed amount, `None` on overflow.
pub fn try_fixed_notional(notional: Decimal, price: Decimal) -> (r: Option<Decimal>)
    ensures
        r == fixed_notional_spec(notional, price),
{
    if dec_is_zero(&price) {
        Some(dec_from_i64(0))
    } else {
        checked_div(&notional, &price)
    }
}

/// Position size for a fixed amount.
pub fn fixed_notional(notional: Decimal, price: Decimal) -> (r: Decimal)
    requires
        fixed_notional_spec(notional, price) is Some,
    ensures
        Some(r) == fixed_notional_spec(notional, price),
{
    try_fixed_notional(notional, price).unwrap()
}

/// A size rounded down to a multiple of the lot size, `None` on overflow.
pub fn try_round_to_lot(size: Decimal, lot_size: Decimal) -> (r: Option<Decimal>)
    ensures
        r == round_to_lot_spec(size, lot_size),
{
    if dec_is_zero(&lot_size) {
        Some(size)
    } else {
        match checked_div(&size, &lot_size) {
            Some(q) => checked_mul(&floor(&q), &lot_size),
            None => None,
        }
    }
}

/// A size rounded down to a multiple of the lot size.
pub fn round_to_lot(size: Decimal, lot_size: Decimal) -> (r: Decimal)
    requires
        round_to_lot_spec(size, lot_size) is Some,
    ensures
        Some(r) == round_to_lot_spec(size, lot_size),
{
    try_round_to_lot(size, lot_size).unwrap()
}

} // verus!
