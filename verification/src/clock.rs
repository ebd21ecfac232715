//! The clocks that undo grouping and cursor blinking read.
use vstd::prelude::*;

verus! {

/// `std::time::Instant`, a reading of the monotonic clock.
#[verifier::external_type_specification]
#[verifier::external_body]
pub struct ExInstant(std::time::Instant);

/// `Instant::clone`: `Instant` is `Copy`, so the clone is the same reading.
pub assume_specification[ <std::time::Instant as Clone>::clone ](i: &std::time::Instant) -> (r:
    std::time::Instant)
    ensures
        r == *i,
;

/// Milliseconds since the Unix epoch by the system clock
/// (`SystemTime::now().duration_since(UNIX_EPOCH)`), 0 when the clock reads
/// before the epoch. Nothing is stated of the value: it is the time.
#[verifier::external_body]
pub(crate) fn unix_millis_now() -> (r: u64) {
    std::time::SystemTime::now()
        .duration_since(std::time::UNIX_EPOCH)
        .map(|d| d.as_millis() as u64)
        .unwrap_or(0)
}

/// `Instant::now()`. Nothing is stated of the value: it is the time.
#[verifier::external_body]
pub(crate) fn instant_now() -> (r: std::time::Instant) {
    std::time::Instant::now()
}

/// Whole milliseconds from `earlier` to `later`
/// (`later.duration_since(earlier)`, which is zero when `earlier` is the
/// later reading). Nothing is stated of the value: `Instant` is opaque.
#[verifier::external_body]
pub(crate) fn millis_between(later: &std::time::Instant, earlier: &std::time::Instant) -> (r: u64) {
    later.duration_since(*earlier).as_millis() as u64
}

} // verus!
