//! The monotonic system clock, read in milliseconds.
use vstd::prelude::*;

verus! {

/// Relies on embassy_time::Instant::now and Instant::as_millis: the current
/// reading of the system's monotonic clock, in milliseconds since boot.
/// Nothing is promised of the value: it depends on when the call is made.
#[verifier::external_body]
pub(crate) fn now_ms() -> (r: u64) {
    embassy_time::Instant::now().as_millis()
}

} // verus!
