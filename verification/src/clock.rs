//! The recorder's view of time: an opaque monotonic clock reading, and the
//! nanoseconds elapsed between two readings.  Nothing is assumed about the
//! values read; the recorder itself enforces that its timestamps never go
//! backwards.

use std::time::Instant;
use vstd::prelude::*;

verus! {

#[verifier::external_type_specification]
#[verifier::external_body]
pub struct ExInstant(Instant);

/// Relies on std's `Instant::now`: one opaque reading of the monotonic clock.
#[verifier::external_body]
pub(crate) fn instant_now() -> Instant {
    Instant::now()
}

/// Relies on std's `Instant::duration_since`: the time elapsed from `earlier`
/// to `now`, or zero if `earlier` is the later reading; converted to whole
/// nanoseconds, truncated to 64 bits.
#[verifier::external_body]
pub(crate) fn elapsed_nanos(now: &Instant, earlier: &Instant) -> u64 {
    now.duration_since(*earlier).as_nanos() as u64
}

} // verus!
