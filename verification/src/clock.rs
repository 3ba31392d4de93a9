//! The wall clock.
use std::time::{Duration, Instant};

use vstd::prelude::*;

verus! {

/// A point in time, carried as it is.
#[verifier::external_type_specification]
#[verifier::external_body]
pub struct ExInstant(std::time::Instant);

/// `Instant::now`: the present moment. Nothing is claimed of it.
#[verifier::external_body]
pub(crate) fn now() -> (r: Instant) {
    Instant::now()
}

/// `Instant::elapsed`: the time since `start`. Nothing is claimed of it.
#[verifier::external_body]
pub(crate) fn elapsed(start: &Instant) -> (r: Duration) {
    start.elapsed()
}

/// The present moment: an outcome of this function is a moment that the clock gave.
pub fn moment() -> (r: Instant) {
    now()
}

/// The time since `start`: an outcome of this function on `start` is a time that the clock measured
/// from it.
pub fn since(start: &Instant) -> (r: Duration) {
    elapsed(start)
}

} // verus!
