//! The wall clock, read in whole seconds since the epoch, and spans of whole
//! seconds.

use vstd::prelude::*;
use std::time::{Duration, SystemTime};

verus! {

/// `std::time::SystemTime`, a reading of the wall clock. Nothing is seen of
/// what it holds.
#[verifier::external_type_specification]
#[verifier::external_body]
pub struct ExSystemTime(SystemTime);

/// The whole seconds of a span of time.
pub uninterp spec fn seconds_of(span: Duration) -> u64;

/// What a span of time holds beyond its whole seconds, in nanoseconds.
pub uninterp spec fn nanos_of(span: Duration) -> u32;

/// `SystemTime::now` reads the wall clock. Nothing is known of what it
/// returns: the clock may stand anywhere, and may have been set back.
pub assume_specification[ SystemTime::now ]() -> SystemTime
;

/// `SystemTime::duration_since`, asked for the time since the epoch, fails
/// where the time lies before it.
#[verifier::external_body]
pub(crate) fn since_epoch(time: &SystemTime) -> Option<Duration> {
    time.duration_since(SystemTime::UNIX_EPOCH).ok()
}

/// `Duration::as_secs` returns the whole seconds of the span.
pub assume_specification[ Duration::as_secs ](span: &Duration) -> (seconds: u64)
    ensures
        seconds == seconds_of(*span),
;

/// `Duration::from_secs` makes a span of that many whole seconds and nothing
/// more.
pub assume_specification[ Duration::from_secs ](seconds: u64) -> (span: Duration)
    ensures
        seconds_of(span) == seconds,
        nanos_of(span) == 0,
;

/// The seconds since the epoch that the wall clock shows, if it does not
/// stand before the epoch.
pub(crate) fn unix_seconds() -> (now: Option<u64>) {
    match since_epoch(&SystemTime::now()) {
        Some(span) => Some(span.as_secs()),
        None => None,
    }
}

/// The span from `then` to `now`, both in seconds since the epoch, if `then`
/// is not in the future.
pub fn span_between(then: u64, now: u64) -> (span: Option<Duration>)
    ensures
        span is Some <==> then <= now,
        span matches Some(d) ==> seconds_of(d) == now - then && nanos_of(d) == 0,
{
    match now.checked_sub(then) {
        Some(seconds) => Some(Duration::from_secs(seconds)),
        None => None,
    }
}

} // verus!
