//! The machine's monotonic clock.
use vstd::prelude::*;

use crate::time;
use crate::time::Duration;

verus! {

/// `std::time::Instant`: a reading of the monotonic clock. Nothing is claimed
/// of what a reading holds.
#[verifier::external_type_specification]
#[verifier::external_body]
pub struct ExInstant(std::time::Instant);

/// `std::time::Instant::now` reads the clock. The reading is up to the
/// machine, so nothing is claimed of it.
pub assume_specification[ std::time::Instant::now ]() -> std::time::Instant
;

/// `std::time::Instant::elapsed`: the time from `anchor` to now, as a span of
/// this library. How long that is, is up to the machine, so nothing is claimed
/// of it.
#[verifier::external_body]
pub(crate) fn elapsed(anchor: &std::time::Instant) -> Duration {
    let e = anchor.elapsed();
    Duration::new(e.as_secs(), e.subsec_nanos())
}

/// Whether `ms` is what a clock that was started at `anchor` has read. What a
/// clock reads is up to the machine; this is closed, so that outside of this
/// module only [`read`] says it of a number.
pub closed spec fn showed(anchor: std::time::Instant, ms: u64) -> bool {
    exists|elapsed: Duration| ms == #[trigger] time::saturated(elapsed@ / 1_000_000)
}

/// Reads a clock that was started at `anchor`: whole milliseconds, or the largest
/// number.
pub fn read(anchor: &std::time::Instant) -> (r: u64)
    ensures
        showed(*anchor, r),
{
    let e = elapsed(anchor);
    let r: u64 = reading(e);
    assert(r == time::saturated(e@ / 1_000_000));
    r
}

/// What a clock reads that was started `elapsed` ago: whole milliseconds, or the
/// largest number.
pub fn reading(elapsed: Duration) -> (r: u64)
    ensures
        r == time::saturated(elapsed@ / 1_000_000),
{
    time::saturate(elapsed.as_millis())
}

} // verus!
