//! Reading the monotonic clock and measuring durations.

use std::time::{Duration, Instant};
use vstd::prelude::*;

verus! {

/// A moment of the monotonic clock.
#[verifier::external_type_specification]
#[verifier::external_body]
pub struct ExInstant(Instant);

/// The whole number of nanoseconds in a duration (what `Duration::as_nanos` returns).
pub uninterp spec fn duration_nanos(d: Duration) -> u128;

/// `Instant::now`: the current moment. Nothing is promised of the value, which
/// depends on when the call is made.
#[verifier::external_body]
pub(crate) fn instant_now() -> Instant {
    Instant::now()
}

/// The time from the moment `earlier` to the moment `later` (what
/// `Instant::duration_since` returns; it depends on the two moments alone).
pub uninterp spec fn elapsed_between(later: Instant, earlier: Instant) -> Duration;

/// `Instant::duration_since`: the time from `earlier` to `later` (zero when
/// `earlier` is the later one). The contract names the result by the two
/// moments it is measured between; how long that is, the moments being
/// opaque here, is left unsaid.
#[verifier::external_body]
pub(crate) fn duration_since(later: &Instant, earlier: &Instant) -> (d: Duration)
    ensures
        d == elapsed_between(*later, *earlier),
{
    later.duration_since(*earlier)
}

/// `Duration::as_nanos`: the duration in whole nanoseconds.
#[verifier::external_body]
pub(crate) fn nanos(d: &Duration) -> (n: u128)
    ensures
        n == duration_nanos(*d),
{
    d.as_nanos()
}

/// `Duration::from_millis`: a duration of `ms` milliseconds, that is
/// `ms * 1_000_000` nanoseconds.
#[verifier::external_body]
pub(crate) fn from_millis(ms: u64) -> (d: Duration)
    ensures
        duration_nanos(d) == ms as int * 1_000_000,
{
    Duration::from_millis(ms)
}

} // verus!
