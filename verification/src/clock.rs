//! Wall-clock measurement of how long a computation took.

use std::time::Duration;
use std::time::Instant;
use vstd::prelude::*;

verus! {

/// Makes `std::time::Instant`, a reading of the monotonic clock, known as an
/// opaque type.
#[verifier::external_type_specification]
#[verifier::external_body]
pub struct ExInstant(Instant);

/// `Instant::now` reads the monotonic clock. The reading depends on when the
/// call is made, so nothing is claimed about it.
pub assume_specification[ Instant::now ]() -> (now: Instant);

/// `Instant::elapsed` measures the time since the instant was taken. The
/// measurement depends on when the call is made, so nothing is claimed about it.
pub assume_specification[ Instant::elapsed ](start: &Instant) -> (elapsed: Duration);

} // verus!
