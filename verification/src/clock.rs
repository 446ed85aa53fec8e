//! The monotonic clock, for the engine methods that read it: each test
//! measures its times in milliseconds from an instant taken when it was
//! made.

use vstd::prelude::*;

use std::time::Instant;

verus! {

#[verifier::external_type_specification]
#[verifier::external_body]
pub struct ExInstant(std::time::Instant);

/// std `Instant::now`: a reading of the monotonic clock. Nothing is
/// promised of it: it depends on when it is taken.
#[verifier::external_body]
pub fn instant_now() -> Instant {
    Instant::now()
}

/// Whole milliseconds from `origin` to now on the monotonic clock (std
/// `Instant::elapsed`, in milliseconds). Nothing is promised of the value:
/// it depends on when it is called.
#[verifier::external_body]
pub fn millis_since(origin: &Instant) -> u64 {
    origin.elapsed().as_millis() as u64
}

} // verus!
