//! Wall clock readings, for the timings that the codecs report.

use std::time::{Duration, Instant};
use vstd::prelude::*;

verus! {

#[verifier::external_type_specification]
#[verifier::external_body]
pub struct ExInstant(Instant);

/// Calls `Instant::now`. The reading depends on the clock: nothing is
/// claimed of it.
#[verifier::external_body]
pub(crate) fn now() -> (t: Instant) {
    Instant::now()
}

/// Calls `Instant::duration_since`: the time elapsed from `start` to `end`
/// (zero when `end` is earlier). Nothing is claimed of the value.
#[verifier::external_body]
pub(crate) fn elapsed(start: Instant, end: Instant) -> (d: Duration) {
    end.duration_since(start)
}

} // verus!
