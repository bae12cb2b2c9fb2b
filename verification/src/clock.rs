//! Monotonic clock values used by the state machines of the SDK.

use chrono::{DateTime, Utc};
use std::time::Duration;
use std::time::Instant;
use vstd::prelude::*;

verus! {

/// `std::time::Instant`, carried through the library as an opaque value.
#[verifier::external_type_specification]
#[verifier::external_body]
pub struct ExInstant(Instant);

/// `Clone` of `Duration`, a `Copy` type: the clone is the value itself.
pub assume_specification[ <Duration as Clone>::clone ](d: &Duration) -> (r: Duration)
    ensures
        r == *d,
;

/// Reads the monotonic clock (`Instant::now`).
/// The value depends on the time of the call, so nothing is promised of it.
#[verifier::external_body]
pub fn instant_now() -> Instant {
    Instant::now()
}

/// The whole nanoseconds in a duration (`Duration::as_nanos`).
pub uninterp spec fn duration_nanos(d: Duration) -> u128;

/// Builds a duration of the given number of milliseconds
/// (`Duration::from_millis`): `ms × 10^6` nanoseconds, and `ms × 1000`
/// microseconds where that fits a `u64`.
#[verifier::external_body]
pub fn duration_from_millis(ms: u64) -> (d: Duration)
    ensures
        duration_nanos(d) == ms * 1_000_000,
        ms * 1000 <= u64::MAX ==> duration_micros(d) == ms * 1000,
{
    Duration::from_millis(ms)
}

/// Builds a duration of the given number of seconds (`Duration::from_secs`):
/// `secs × 10^9` nanoseconds, and `secs × 10^6` microseconds where that fits
/// a `u64`.
#[verifier::external_body]
pub fn duration_from_secs(secs: u64) -> (d: Duration)
    ensures
        duration_nanos(d) == secs * 1_000_000_000,
        secs * 1_000_000 <= u64::MAX ==> duration_micros(d) == secs * 1_000_000,
{
    Duration::from_secs(secs)
}

/// The whole nanoseconds in `d` (`Duration::as_nanos`): a function of `d` alone.
#[verifier::external_body]
pub fn as_nanos(d: &Duration) -> (n: u128)
    ensures
        n == duration_nanos(*d),
{
    d.as_nanos()
}

/// Microseconds passed since `start` (`Instant::elapsed` then `Duration::as_micros`).
/// The answer depends on the time of the call, so nothing is promised of it.
#[verifier::external_body]
pub fn elapsed_micros(start: &Instant) -> u64 {
    start.elapsed().as_micros() as u64
}

/// Nanoseconds passed since `start` (`Instant::elapsed` then `Duration::as_nanos`, cut to `u64`).
/// The answer depends on the time of the call, so nothing is promised of it.
#[verifier::external_body]
pub fn elapsed_nanos(start: &Instant) -> u64 {
    start.elapsed().as_nanos() as u64
}

/// The time passed since `start` (`Instant::elapsed`).
/// The answer depends on the time of the call, so nothing is promised of it.
#[verifier::external_body]
pub fn elapsed_since(start: &Instant) -> Duration {
    start.elapsed()
}

/// The time from `start` to `end`, zero when `end` is earlier
/// (`Instant::duration_since`). Instants are opaque, so nothing is promised of it.
#[verifier::external_body]
pub fn duration_between(start: &Instant, end: &Instant) -> Duration {
    end.duration_since(*start)
}

/// Whole microseconds in a duration (`Duration::as_micros`, cut to `u64`).
pub uninterp spec fn duration_micros(d: Duration) -> u64;

/// Whole microseconds in `d` (`Duration::as_micros`, cut to `u64`): a function of `d` alone.
#[verifier::external_body]
pub fn as_micros(d: &Duration) -> (m: u64)
    ensures
        m == duration_micros(*d),
{
    d.as_micros() as u64
}

/// The `Display` text of the UTC time `micros` microseconds after the Unix
/// epoch, such as `2024-01-01 00:00:00 UTC`.
pub uninterp spec fn utc_text(micros: i64) -> Seq<char>;

/// The `Display` text of a time given in microseconds since the Unix epoch
/// (`DateTime::<Utc>::from_timestamp_micros`, then `to_string`): a function
/// of `micros` alone. Times beyond chrono's range (about 262,000 years
/// from 1970) give the empty text.
#[verifier::external_body]
pub fn utc_display(micros: i64) -> (s: String)
    ensures
        s@ == utc_text(micros),
{
    match DateTime::<Utc>::from_timestamp_micros(micros) {
        Some(t) => t.to_string(),
        None => String::new(),
    }
}

/// Reads the wall clock: microseconds since the Unix epoch, in UTC
/// (`Utc::now` followed by `DateTime::timestamp_micros`).
/// The value depends on the time of the call, so nothing is promised of it.
#[verifier::external_body]
pub fn utc_now_micros() -> i64 {
    Utc::now().timestamp_micros()
}

} // verus!
