//! Readings of the system clock.
use vstd::prelude::*;
use std::time::Duration;

verus! {

/// `std::time::UNIX_EPOCH.elapsed()`: the time from the Unix epoch to what the system
/// clock reads now; `None` when the clock reads a time before the epoch.  Nothing is
/// stated of the reading itself: it is the time.
#[verifier::external_body]
pub(crate) fn time_since_epoch() -> (r: Option<Duration>) {
    std::time::UNIX_EPOCH.elapsed().ok()
}

/// `Duration::as_secs`: the whole seconds of a duration.  Nothing is stated of the value.
#[verifier::external_body]
pub(crate) fn whole_seconds(d: &Duration) -> (r: u64) {
    d.as_secs()
}

/// `Duration::subsec_nanos`: the fractional part of a duration in nanoseconds, which its
/// documentation states is less than one billion.
#[verifier::external_body]
pub(crate) fn fraction_nanos(d: &Duration) -> (r: u32)
    ensures
        r < 1_000_000_000,
{
    d.subsec_nanos()
}

} // verus!
