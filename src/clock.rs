//! Monotonic time as whole milliseconds since a fixed origin.
use vstd::prelude::*;

verus! {

#[verifier::external_type_specification]
#[verifier::external_body]
pub struct ExInstant(std::time::Instant);

/// Relies on `std::time::Instant::now`: a reading of the monotonic clock.
pub assume_specification[ std::time::Instant::now ]() -> std::time::Instant;

/// Relies on `std::time::Instant::elapsed`: the time passed since the instant.
/// Nothing is known of the reading itself.
pub assume_specification[ std::time::Instant::elapsed ](origin: &std::time::Instant) -> core::time::Duration;

/// Relies on `core::time::Duration::as_millis`: the whole milliseconds in a span.
pub assume_specification[ core::time::Duration::as_millis ](d: &core::time::Duration) -> u128;

/// The whole milliseconds since `origin`, held at `u64::MAX`.
pub fn millis_since(origin: &std::time::Instant) -> u64 {
    let ms = origin.elapsed().as_millis();
    if ms > u64::MAX as u128 {
        u64::MAX
    } else {
        ms as u64
    }
}

} // verus!
