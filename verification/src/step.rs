//! The step controller: one bounded advancement of the engine per host tick.

use vstd::prelude::*;

verus! {

/// Drives one bounded advancement of the simulation engine per host tick.
/// It owns no simulation state itself: it only fixes how far the engine may
/// advance within one tick and interprets how far the engine actually got.
pub struct StepController {
    /// Maximum real time the engine may spend in one advancement call,
    /// constant per session.
    pub wall_budget: u64,
}

impl StepController {
    pub fn new(wall_budget: u64) -> (r: Self)
        ensures
            r.wall_budget == wall_budget,
    {
        StepController { wall_budget }
    }

    /// How much simulated time the engine may consume this tick: exactly the
    /// remaining distance, so a bounded step can never pass the target.
    pub fn max_advance(&self, current: u64, target: u64) -> (r: u64)
        requires
            current <= target,
        ensures
            r == target - current,
    {
        target - current
    }

    /// The simulated time after the engine consumed `consumed` of the
    /// granted advance: monotone, never past the target, and at the target
    /// exactly when the whole remaining distance was consumed.
    pub fn apply(&self, current: u64, target: u64, consumed: u64) -> (r: u64)
        requires
            current <= target,
            consumed <= target - current,
        ensures
            r == current + consumed,
            current <= r <= target,
            r == target <==> consumed == target - current,
    {
        current + consumed
    }
}

} // verus!
