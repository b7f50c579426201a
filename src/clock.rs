use vstd::prelude::*;

verus! {

#[verifier::external_type_specification]
#[verifier::external_body]
pub struct ExInstant(std::time::Instant);

/// Relies on `Clone` for `std::time::Duration`, which copies it; nothing is
/// stated of the copy.
pub assume_specification[ <std::time::Duration as Clone>::clone ](d: &std::time::Duration) -> std::time::Duration;

/// Relies on `std::time::Instant::now`: a reading of the monotonic clock.
#[verifier::external_body]
pub(crate) fn now() -> std::time::Instant {
    std::time::Instant::now()
}

/// Relies on `std::time::Instant::elapsed`: the time that has passed since `start`.
#[verifier::external_body]
pub(crate) fn elapsed(start: &std::time::Instant) -> std::time::Duration {
    start.elapsed()
}

/// Relies on `std::time::Duration::as_nanos`: the whole nanoseconds that `d` holds.
#[verifier::external_body]
pub(crate) fn as_nanos(d: &std::time::Duration) -> u128 {
    d.as_nanos()
}

} // verus!
