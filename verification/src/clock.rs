//! Readings of the monotonic clock, and the few `std::time` operations that the
//! library's time-dependent decisions rest on.
//!
//! Nothing is claimed of a reading: every decision that depends on the clock is
//! also offered as a function that takes the reading as an argument.

use std::time::{Duration, Instant};
use vstd::prelude::*;

verus! {

#[verifier::external_type_specification]
#[verifier::external_body]
pub struct ExInstant(Instant);

/// What `Duration::from_secs` returns for a number of whole seconds.
pub uninterp spec fn duration_of_secs(secs: u64) -> Duration;

/// `Instant::now`: the current reading of the monotonic clock.
/// Nothing is claimed of it.
#[verifier::external_body]
pub(crate) fn instant_now() -> Instant {
    Instant::now()
}

/// `Instant::elapsed`: the time that has passed since `since`.
/// It depends on the clock, so nothing is claimed of it.
#[verifier::external_body]
pub(crate) fn instant_elapsed(since: &Instant) -> Duration {
    since.elapsed()
}

/// `Duration::as_nanos`: the whole number of nanoseconds in `d`. The duration
/// is opaque here; claimed only: a duration of `s` whole seconds made by
/// `Duration::from_secs` holds `s` times 10^9 nanoseconds.
#[verifier::external_body]
pub(crate) fn duration_as_nanos(d: &Duration) -> (n: u128)
    ensures
        forall|s: u64| #[trigger] duration_of_secs(s) == *d ==> n == s * 1_000_000_000,
{
    d.as_nanos()
}

/// `Duration::from_secs`: the duration of `secs` whole seconds.
/// Claimed: the result is the same for the same number of seconds.
#[verifier::external_body]
pub(crate) fn duration_from_secs(secs: u64) -> (d: Duration)
    ensures
        d == duration_of_secs(secs),
{
    Duration::from_secs(secs)
}

} // verus!
