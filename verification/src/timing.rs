//! Clocks: the monotonic clock that ages cache entries, and the calendar
//! clock that stamps entities in milliseconds since the Unix epoch.

use vstd::prelude::*;
use std::time::{Duration, Instant};
use chrono::{TimeZone, Utc};

verus! {

/// `std::time::Instant`: a reading of the monotonic clock, carried as it
/// is. Nothing is known of what it holds.
#[verifier::external_type_specification]
#[verifier::external_body]
pub struct ExInstant(std::time::Instant);

/// The whole number of nanoseconds that a `Duration` spans.
pub uninterp spec fn duration_nanos(d: Duration) -> nat;

/// Whether a count of milliseconds since the Unix epoch names a moment that
/// the calendar can represent.
pub uninterp spec fn representable_millis(millis: i64) -> bool;

/// `Instant::now`: the present reading of the monotonic clock. Nothing is
/// claimed of the reading.
#[verifier::external_body]
pub(crate) fn instant_now() -> Instant {
    Instant::now()
}

/// `Instant::elapsed`: the time gone by since `since` was read. Nothing is
/// claimed of the amount.
#[verifier::external_body]
pub(crate) fn instant_elapsed(since: &Instant) -> Duration {
    since.elapsed()
}

/// `Duration::as_nanos`: the total number of nanoseconds in `d`, which is
/// what `duration_nanos` names.
#[verifier::external_body]
pub(crate) fn duration_as_nanos(d: &Duration) -> (n: u128)
    ensures
        n == duration_nanos(*d),
{
    d.as_nanos()
}

/// `Duration::from_secs`: the span of `secs` whole seconds, each of them a
/// thousand million nanoseconds.
#[verifier::external_body]
pub(crate) fn duration_from_secs(secs: u64) -> (d: Duration)
    ensures
        duration_nanos(d) == secs * 1_000_000_000,
{
    Duration::from_secs(secs)
}

/// `TimeZone::timestamp_millis_opt` on `Utc`, reduced to whether it yields a
/// single moment: chrono gives one exactly when `millis` lies in the range
/// of its calendar, which is what `representable_millis` names.
#[verifier::external_body]
pub(crate) fn utc_accepts_millis(millis: i64) -> (ok: bool)
    ensures
        ok == representable_millis(millis),
{
    Utc.timestamp_millis_opt(millis).single().is_some()
}

/// `Utc::now` read through `DateTime::timestamp_millis`: the present moment
/// in milliseconds since the Unix epoch. Nothing is claimed of the value.
/// The call panics where the system's clock stands before the epoch.
#[verifier::external_body]
pub(crate) fn utc_now_millis() -> i64 {
    Utc::now().timestamp_millis()
}

/// Whether `age` is strictly longer than `ttl`.
pub fn outlasts(age: &Duration, ttl: &Duration) -> (r: bool)
    ensures
        r == (duration_nanos(*age) > duration_nanos(*ttl)),
{
    let age_nanos: u128 = duration_as_nanos(age);
    let ttl_nanos: u128 = duration_as_nanos(ttl);
    age_nanos > ttl_nanos
}

/// Keeps `millis` if the calendar can represent it.
pub fn checked_millis(millis: i64) -> (r: Option<i64>)
    ensures
        r == (if representable_millis(millis) { Some(millis) } else { None::<i64> }),
{
    if utc_accepts_millis(millis) {
        Some(millis)
    } else {
        None
    }
}

/// `millis` where the calendar can represent it, and `fallback` otherwise.
pub fn millis_or(millis: i64, fallback: i64) -> (r: i64)
    ensures
        r == (if representable_millis(millis) { millis } else { fallback }),
{
    match checked_millis(millis) {
        Some(m) => m,
        None => fallback,
    }
}

} // verus!
