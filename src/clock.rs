//! The wall clock that the probes read around each workload.

use vstd::prelude::*;
use std::time::Instant;
use core::time::Duration;

verus! {

#[verifier::external_type_specification]
#[verifier::external_body]
pub struct ExInstant(std::time::Instant);

/// Relies on `Instant::now`: the current reading of the monotonic clock.
pub assume_specification[ std::time::Instant::now ]() -> Instant;

/// Relies on `Instant::elapsed`: the time since the reading.
pub assume_specification[ std::time::Instant::elapsed ](t: &Instant) -> Duration;

/// Relies on `Duration::as_nanos`: the whole nanoseconds of a duration.
pub assume_specification[ core::time::Duration::as_nanos ](d: &Duration) -> u128;

/// Nanoseconds since `start`, capped at `u64::MAX` (about 584 years).
pub fn nanos_since(start: &Instant) -> (r: u64) {
    let d = start.elapsed();
    let n = d.as_nanos();
    if n > u64::MAX as u128 {
        u64::MAX
    } else {
        n as u64
    }
}

} // verus!
