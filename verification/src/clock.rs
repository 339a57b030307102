//! Elapsed time, as the standard library measures it.

use std::time::{Duration, Instant};
use vstd::prelude::*;

verus! {

#[verifier::external_type_specification]
#[verifier::external_body]
pub struct ExInstant(Instant);

/// `Instant::now`: the present moment. Nothing is stated of it.
pub assume_specification[ Instant::now ]() -> Instant
;

/// `Instant::elapsed`: the time since `start`. Nothing is stated of it.
pub assume_specification[ Instant::elapsed ](start: &Instant) -> Duration
;

/// `Duration::as_secs`: the whole seconds of the duration.
pub assume_specification[ Duration::as_secs ](d: &Duration) -> u64
;

/// `Duration::as_millis`: the whole milliseconds of the duration.
pub assume_specification[ Duration::as_millis ](d: &Duration) -> u128
;

} // verus!
