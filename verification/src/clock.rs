//! The monotonic clock that latencies are read from.

use std::time::Instant;
use vstd::prelude::*;

verus! {

/// `std::time::Instant`: a reading of the monotonic clock.
#[verifier::external_type_specification]
#[verifier::external_body]
pub struct ExInstant(Instant);

/// `Instant::now`: a reading of the monotonic clock. Nothing is claimed of what it reads.
#[verifier::external_body]
pub(crate) fn clock_now() -> (reading: Instant) {
    Instant::now()
}

/// `Instant::elapsed`, in nanoseconds: the time that has passed since `reading` was taken.
/// Nothing is claimed of how much that is.
#[verifier::external_body]
pub(crate) fn nanos_since(reading: &Instant) -> (nanos: u128) {
    reading.elapsed().as_nanos()
}

} // verus!
