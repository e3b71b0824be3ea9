//! The monotonic clock, which only the operating system knows.
use vstd::prelude::*;

verus! {

/// The monotonic clock's type.
#[verifier::external_type_specification]
#[verifier::external_body]
pub struct ExInstant(std::time::Instant);

/// `Instant::now()`: the current reading of the monotonic clock.
#[verifier::external_body]
pub(crate) fn instant_now() -> std::time::Instant {
    std::time::Instant::now()
}

} // verus!
