//! Choosing where to warp: the jump-to-time picker's decisions, kept apart
//! from the widgets that present them.

use vstd::prelude::*;

use vstd::arithmetic::div_mod::{lemma_fundamental_div_mod, lemma_mod_multiples_basic};

verus! {

/// What pressing the jump button leads to.
pub enum JumpOutcome {
    /// The target lies in the past: rebuild the world from the gameplay mode
    /// and then warp forward to the target.
    ResetThenWarp,
    /// The target lies in the past and no mode is at hand to rebuild from,
    /// so the jump is refused.
    CannotRewind,
    /// The target lies ahead: warp straight to it.
    Warp,
}

/// The jump-to-time picker: the chosen target, the chosen delay threshold,
/// and whether a gameplay mode is at hand to rebuild the world from.
pub struct JumpToTime {
    pub target: u64,
    pub halt_limit: u64,
    pub has_mode: bool,
}

impl JumpToTime {
    /// Opens the picker at the current simulated time.
    pub fn new(current: u64, halt_limit: u64, has_mode: bool) -> (r: Self)
        ensures
            r.target == current,
            r.halt_limit == halt_limit,
            r.has_mode == has_mode,
    {
        JumpToTime { target: current, halt_limit, has_mode }
    }

    /// Decides what pressing the jump button does: simulated time only moves
    /// forward, so a target in the past needs the world rebuilt first and is
    /// refused when no mode can rebuild it.
    pub fn decide(&self, current: u64) -> (r: JumpOutcome)
        ensures
            r is ResetThenWarp <==> (self.target < current && self.has_mode),
            r is CannotRewind <==> (self.target < current && !self.has_mode),
            r is Warp <==> self.target >= current,
    {
        if self.target < current {
            if self.has_mode {
                JumpOutcome::ResetThenWarp
            } else {
                JumpOutcome::CannotRewind
            }
        } else {
            JumpOutcome::Warp
        }
    }
}

/// The multiple of `step` nearest to `t`, ties rounded up.
pub open spec fn spec_round_to(t: u64, step: u64) -> int
    recommends
        step > 0,
{
    if (t % step) * 2 >= step {
        (t / step + 1) * step
    } else {
        (t / step) * step
    }
}

/// Rounds the slider's time to the nearest multiple of `step` (the picker
/// snaps to ten-minute marks), ties up.
pub fn round_to_multiple(t: u64, step: u64) -> (r: u64)
    requires
        step > 0,
        t + step <= u64::MAX,
    ensures
        r == spec_round_to(t, step),
        r % step == 0,
        r > t ==> 2 * (r - t) <= step,
        r <= t ==> 2 * (t - r) < step,
{
    let q = t / step;
    let rem = t % step;
    proof {
        lemma_fundamental_div_mod(t as int, step as int);
        assert(t == step * q + rem);
        assert(q * step + step <= t + step && q <= t && (q + 1) * step == q * step + step)
            by (nonlinear_arith)
            requires
                t == step * q + rem,
                rem >= 0,
                step >= 1,
        ;
    }
    if rem * 2 >= step {
        let r = (q + 1) * step;
        proof {
            lemma_mod_multiples_basic(q as int + 1, step as int);
        }
        r
    } else {
        let r = q * step;
        proof {
            lemma_mod_multiples_basic(q as int, step as int);
        }
        r
    }
}

} // verus!
