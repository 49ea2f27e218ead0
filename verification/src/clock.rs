//! The two clocks: the wall clock, read once as an anchor, and the time that went by since a moment.

use vstd::prelude::*;

verus! {

/// `std::time::Instant`, carried without looking inside.
#[verifier::external_type_specification]
#[verifier::external_body]
pub struct ExInstant(std::time::Instant);

/// `std::time::Instant::now`: a point on the process's monotonic clock. Nothing is said of it.
#[verifier::external_body]
pub(crate) fn instant_now() -> (r: std::time::Instant) {
    std::time::Instant::now()
}

/// `std::time::Instant::elapsed`: the time since the point, in nanoseconds. What the clock shows
/// depends on when it is asked, so nothing is said of the value.
#[verifier::external_body]
pub(crate) fn elapsed_ns(since: &std::time::Instant) -> (ns: u64) {
    since.elapsed().as_nanos() as u64
}

/// `std::time::SystemTime::now`: nanoseconds since the Unix epoch, zero if the clock stands before
/// it. What the clock shows depends on when it is asked, so nothing is said of the value.
#[verifier::external_body]
pub(crate) fn epoch_ns() -> (ns: i64) {
    std::time::SystemTime::now().duration_since(std::time::UNIX_EPOCH).map_or(0, |d| d.as_nanos() as i64)
}

} // verus!
