//! The time-warp screen: the state machine that owns a session, acquires and
//! releases the monitor slot, interprets engine alerts, and computes the
//! display statistics, one bounded tick at a time.

use vstd::prelude::*;

use crate::compare::{
    compare_to_baseline, count_at_or_before, delta_chars, time_ordered,
};
use crate::delay::{
    record_run, DelayMonitor, MonitorHandle, MonitorSlot,
};
use crate::intersection::IntersectionID;
use crate::step::StepController;

verus! {

/// An anomaly the engine raised while advancing: the simulated time, the
/// intersection it happened near (if any), and the engine's message.
pub struct Alert {
    pub time: u64,
    pub location: Option<IntersectionID>,
    pub message: String,
}

/// Where a time-warp session stands.
pub enum SessionState {
    /// Still advancing toward the target time.
    Running,
    /// The target time was reached.
    Completed,
    /// A sustained delay reached the halt threshold, so the warp stopped at
    /// the offending intersection.
    Halted { location: IntersectionID, first_seen: u64 },
    /// The user stopped the session.
    Cancelled,
    /// An engine alert ended the session; the first alert of that tick is
    /// kept and the rest of the tick's alerts are dropped.
    CompletedWithAlert { alert: Alert },
}

/// The delay monitor a session registered, together with the ownership
/// handle for the process-wide callback slot and the configured threshold.
pub struct ActiveMonitor {
    /// The ownership handle for the monitor slot; only
    /// `MonitorSlot::acquire` can mint one.
    pub token: MonitorHandle,
    pub tracker: DelayMonitor,
    pub halt_limit: u64,
}

/// Display statistics, recomputed every tick while the session advances.
pub struct Status {
    pub now: u64,
    pub target: u64,
    /// Elapsed simulated time per elapsed wall time, integer-rounded.
    pub speed: u64,
    pub finished_trips: usize,
    /// The comparator's delta against the baseline trace, when one exists.
    pub baseline_delta: Option<String>,
}

/// One periodic callback the engine delivered while advancing: the set of
/// currently congested intersections at a simulated-time boundary.
pub struct CongestionReport {
    pub time: u64,
    pub congested: Vec<IntersectionID>,
}

/// Everything one host tick hands the session: the user's cancel signal,
/// the alerts drained before advancing, how much simulated time the engine
/// consumed, the periodic callbacks crossed during the advance, the live
/// finished-trip count, and the wall time elapsed since the session started.
pub struct TickInput {
    pub cancel_requested: bool,
    pub alerts: Vec<Alert>,
    pub consumed: u64,
    pub reports: Vec<CongestionReport>,
    pub finished_trips: usize,
    pub wall_elapsed: u64,
}

/// The playback speed factor: elapsed simulated time per elapsed wall time,
/// integer-rounded; zero before any wall time has passed.
pub open spec fn spec_speed(sim_elapsed: u64, wall_elapsed: u64) -> u64 {
    if wall_elapsed == 0 {
        0
    } else {
        sim_elapsed / wall_elapsed
    }
}

/// Computes the playback speed factor shown on screen.
pub fn speed_factor(sim_elapsed: u64, wall_elapsed: u64) -> (r: u64)
    ensures
        r == spec_speed(sim_elapsed, wall_elapsed),
{
    if wall_elapsed == 0 {
        0
    } else {
        sim_elapsed / wall_elapsed
    }
}

/// The tick's callback reports as (congested set, time) pairs, in order.
pub open spec fn abstract_reports(reports: Seq<CongestionReport>) -> Seq<
    (Seq<IntersectionID>, u64),
> {
    reports.map_values(|r: CongestionReport| (r.congested@, r.time))
}

/// What the engine guarantees of the callbacks it delivers to a monitor that
/// last observed simulated time `obs`, while advancing to `new_now`: each
/// boundary lies in the advanced window, boundaries come in strictly
/// increasing simulated time (never revisited), and each report is a
/// duplicate-free set of intersections.
pub open spec fn reports_valid(reports: Seq<CongestionReport>, obs: u64, new_now: int) -> bool {
    &&& forall|i: int| 0 <= i < reports.len() ==> obs < #[trigger] reports[i].time <= new_now
    &&& forall|i: int, j: int|
        0 <= i < j < reports.len() ==> #[trigger] reports[i].time < #[trigger] reports[j].time
    &&& forall|i: int, j: int, k: int|
        0 <= i < reports.len() && 0 <= j < k < reports[i].congested@.len()
            ==> #[trigger] reports[i].congested@[j] != #[trigger] reports[i].congested@[k]
}

/// A tick on a running session that is neither cancelled nor interrupted by
/// an alert: the only kind of tick that advances simulated time.
pub open spec fn tick_advances(s: TimeWarpScreen, input: TickInput) -> bool {
    s.state is Running && !input.cancel_requested && input.alerts@.len() == 0
}

/// The delay record after this tick's callbacks are folded into `m`.
pub open spec fn tick_tracker_rec(m: ActiveMonitor, input: TickInput) -> Seq<
    (IntersectionID, u64),
> {
    record_run(m.tracker.delayed@, abstract_reports(input.reports@))
}

/// Whether the record's earliest entry has aged past the halt threshold.
pub open spec fn halt_due(rec: Seq<(IntersectionID, u64)>, now: u64, halt_limit: u64) -> bool {
    rec.len() > 0 && now - rec[0].1 >= halt_limit
}

/// The state machine driving one time-warp session.
pub struct TimeWarpScreen {
    /// The simulated time the session advances toward; immutable.
    pub target: u64,
    /// The simulated time at which the session started.
    pub sim_time_started: u64,
    /// The engine's current simulated time, mirrored tick by tick.
    pub now: u64,
    /// The bounded-step driver, holding the per-tick wall budget.
    pub controller: StepController,
    /// The delay monitor, while this session owns the monitor slot.
    pub monitor: Option<ActiveMonitor>,
    /// The recorded baseline's finished-trip times, time-ordered, if a
    /// baseline exists.
    pub baseline: Option<Vec<u64>>,
    pub state: SessionState,
    /// The statistics computed on the most recent advancing tick.
    pub status: Option<Status>,
}

impl TimeWarpScreen {
    /// Whether this session holds the monitor slot.
    pub open spec fn owns_monitor(self) -> bool {
        self.monitor is Some
    }

    /// The session invariant: the clock runs from the start time to the
    /// target, a completed session sits exactly at the target, the monitor
    /// never observes the future, terminal sessions have released the slot,
    /// and the baseline is time-ordered.
    pub open spec fn wf(self) -> bool {
        &&& self.sim_time_started <= self.now <= self.target
        &&& (self.monitor matches Some(m) ==> m.tracker.wf() && m.tracker.observed <= self.now)
        &&& (self.baseline matches Some(b) ==> time_ordered(b@))
        &&& (self.state is Completed ==> self.now == self.target)
        &&& (!(self.state is Running) ==> self.monitor is None)
    }

    /// Starts a session at simulated time `current`, advancing toward
    /// `target`.  When a halt threshold is given, the session requests the
    /// monitor slot and registers a delay monitor; if another owner already
    /// holds the slot, the session proceeds without one (degraded mode) and
    /// can then never halt on delay.
    pub fn new(
        slot: &mut MonitorSlot,
        current: u64,
        target: u64,
        halt_upon_delay: Option<u64>,
        baseline: Option<Vec<u64>>,
        wall_budget: u64,
    ) -> (r: Self)
        requires
            current <= target,
            (baseline matches Some(b) ==> time_ordered(b@)),
        ensures
            r.wf(),
            r.state is Running,
            r.now == current,
            r.sim_time_started == current,
            r.target == target,
            r.controller.wall_budget == wall_budget,
            r.baseline == baseline,
            r.status is None,
            r.owns_monitor() <==> (halt_upon_delay is Some && !old(slot).taken()),
            final(slot).taken() == (old(slot).taken() || halt_upon_delay is Some),
            (r.monitor matches Some(m) ==> m.halt_limit == halt_upon_delay->0
                && m.tracker.delayed@ == Seq::<(IntersectionID, u64)>::empty()
                && m.tracker.observed == current),
    {
        let monitor = if let Some(halt_limit) = halt_upon_delay {
            if let Some(token) = slot.acquire() {
                Some(ActiveMonitor { token, tracker: DelayMonitor::new(current), halt_limit })
            } else {
                None
            }
        } else {
            None
        };
        TimeWarpScreen {
            target,
            sim_time_started: current,
            now: current,
            controller: StepController::new(wall_budget),
            monitor,
            baseline,
            state: SessionState::Running,
            status: None,
        }
    }

    /// Gives the monitor slot back if this session holds it; everything else
    /// stays as it is.
    fn release_monitor(&mut self, slot: &mut MonitorSlot)
        ensures
            final(self).monitor is None,
            old(self).monitor is Some ==> !final(slot).taken(),
            old(self).monitor is None ==> *final(slot) == *old(slot),
            final(self).target == old(self).target,
            final(self).sim_time_started == old(self).sim_time_started,
            final(self).now == old(self).now,
            final(self).controller == old(self).controller,
            final(self).baseline == old(self).baseline,
            final(self).state == old(self).state,
            final(self).status == old(self).status,
    {
        let mon = self.monitor.take();
        if let Some(am) = mon {
            slot.release(am.token);
        }
    }

    /// Recomputes the display statistics for the current tick.
    fn update_status(&mut self, finished_trips: usize, wall_elapsed: u64)
        requires
            old(self).sim_time_started <= old(self).now,
            (old(self).baseline matches Some(b) ==> time_ordered(b@)),
        ensures
            final(self).status matches Some(st) && st.now == old(self).now && st.target == old(self).target && st.speed == spec_speed(
                (old(self).now - old(self).sim_time_started) as u64,
                wall_elapsed,
            ) && st.finished_trips == finished_trips && (match old(self).baseline {
                Some(b) => if b@.len() > 0 {
                    st.baseline_delta matches Some(d) && d@ == delta_chars(
                        finished_trips as nat,
                        count_at_or_before(b@, old(self).now),
                    )
                } else {
                    st.baseline_delta is None
                },
                None => st.baseline_delta is None,
            }),
            final(self).target == old(self).target,
            final(self).sim_time_started == old(self).sim_time_started,
            final(self).now == old(self).now,
            final(self).controller == old(self).controller,
            final(self).baseline == old(self).baseline,
            final(self).state == old(self).state,
            final(self).monitor == old(self).monitor,
    {
        let speed = speed_factor(self.now - self.sim_time_started, wall_elapsed);
        // an empty trace skips the comparison entirely, the same as a
        // missing one
        let baseline_delta = match &self.baseline {
            Some(b) => if b.len() > 0 {
                Some(compare_to_baseline(b, self.now, finished_trips))
            } else {
                None
            },
            None => None,
        };
        self.status = Some(
            Status {
                now: self.now,
                target: self.target,
                speed,
                finished_trips,
                baseline_delta,
            },
        );
    }

    /// One host tick.
    ///
    /// The host drains the engine's alerts first; a tick that carries alerts
    /// or a cancel request performs no advance, so `consumed` and `reports`
    /// are meaningful only on an advancing tick.  In order, the tick:
    /// honours a pending cancel (no further advancement ever happens);
    /// surfaces the first drained alert and drops the rest; otherwise it
    /// advances the mirrored clock by what the engine consumed, folds the
    /// periodic callbacks into the delay monitor, completes exactly on
    /// reaching the target, halts at the earliest intersection whose delay
    /// reached the threshold, and else keeps running with fresh statistics.
    /// Every terminating transition of a slot-owning session releases the
    /// monitor slot, exactly once.
    #[verifier::loop_isolation(false)]
    pub fn event(&mut self, slot: &mut MonitorSlot, input: TickInput)
        requires
            old(self).wf(),
            tick_advances(*old(self), input) ==> input.consumed <= old(self).target - old(self).now,
            old(self).monitor matches Some(m) ==> (tick_advances(*old(self), input)
                ==> reports_valid(
                input.reports@,
                m.tracker.observed,
                old(self).now + input.consumed,
            )),
            (tick_advances(*old(self), input) && old(self).monitor is None)
                ==> input.reports@.len() == 0,
        ensures
            final(self).wf(),
            final(self).target == old(self).target,
            final(self).sim_time_started == old(self).sim_time_started,
            final(self).controller == old(self).controller,
            final(self).baseline == old(self).baseline,
            // a session that already ended stays put
            !(old(self).state is Running) ==> *final(self) == *old(self) && *final(slot) == *old(slot),
            // cancellation wins the tick: no advancement, resources released
            (old(self).state is Running && input.cancel_requested) ==> final(self).state is Cancelled && final(self).now == old(self).now && final(self).status == old(self).status,
            // the first alert ends the session; the tick's other alerts drop
            (old(self).state is Running && !input.cancel_requested && input.alerts@.len() > 0)
                ==> (final(self).state matches SessionState::CompletedWithAlert { alert } && alert
                == input.alerts@[0]) && final(self).now == old(self).now && final(self).status
                == old(self).status,
            // an advancing tick moves the clock by what the engine consumed
            tick_advances(*old(self), input) ==> final(self).now == old(self).now
                + input.consumed,
            // completion comes exactly on reaching the target: never before,
            // never skipping past it
            old(self).state is Running ==> (final(self).state is Completed <==> (
            !input.cancel_requested && input.alerts@.len() == 0 && old(self).now + input.consumed
                == old(self).target)),
            // the callbacks crossed this tick are folded into the record, in
            // simulated-time order
            old(self).monitor matches Some(m) ==> (final(self).monitor matches Some(m2) ==> (
            tick_advances(*old(self), input) ==> m2.halt_limit == m.halt_limit
                && m2.tracker.delayed@ == tick_tracker_rec(m, input))),
            // the session halts exactly when it still owns a monitor, the
            // target is not yet reached, and the earliest recorded delay has
            // aged past the threshold -- at that very tick, not a later one
            old(self).monitor matches Some(m) ==> ((tick_advances(*old(self), input) && old(
                self,
            ).now + input.consumed != old(self).target && halt_due(
                tick_tracker_rec(m, input),
                (old(self).now + input.consumed) as u64,
                m.halt_limit,
            )) ==> (final(self).state matches SessionState::Halted { location, first_seen }
                && location == tick_tracker_rec(m, input)[0].0 && first_seen == tick_tracker_rec(
                m,
                input,
            )[0].1)),
            old(self).monitor matches Some(m) ==> ((tick_advances(*old(self), input) && old(
                self,
            ).now + input.consumed != old(self).target && !halt_due(
                tick_tracker_rec(m, input),
                (old(self).now + input.consumed) as u64,
                m.halt_limit,
            )) ==> !(final(self).state is Halted)),
            // a running session never carries an over-age delay record
            final(self).monitor matches Some(m2) ==> (final(self).state is Running ==> forall|
                i: int,
            |
                0 <= i < m2.tracker.delayed@.len() ==> final(self).now - #[trigger] m2.tracker.delayed@[i].1
                    < m2.halt_limit),
            // a session without the monitor slot can never halt
            (old(self).state is Running && old(self).monitor is None)
                ==> !(final(self).state is Halted),
            // every terminating transition of an owning session releases the
            // slot, exactly once; the slot is untouched otherwise
            (old(self).state is Running && old(self).owns_monitor() && !(final(self).state is Running)) ==> final(self).monitor is None && !final(slot).taken(),
            (old(self).state is Running && final(self).state is Running) ==> *final(slot) == *old(slot) && final(self).owns_monitor() == old(self).owns_monitor(),
            !old(self).owns_monitor() ==> *final(slot) == *old(slot),
            // statistics are fresh on every tick that keeps running or
            // completes, and untouched on the others
            (tick_advances(*old(self), input) && (final(self).state is Running || final(self).state is Completed)) ==> (final(self).status matches Some(st) && st.now == old(self).now + input.consumed && st.target == old(self).target && st.speed == spec_speed(
                (old(self).now + input.consumed - old(self).sim_time_started) as u64,
                input.wall_elapsed,
            ) && st.finished_trips == input.finished_trips && (match old(self).baseline {
                Some(b) => if b@.len() > 0 {
                    st.baseline_delta matches Some(d) && d@ == delta_chars(
                        input.finished_trips as nat,
                        count_at_or_before(b@, (old(self).now + input.consumed) as u64),
                    )
                } else {
                    st.baseline_delta is None
                },
                None => st.baseline_delta is None,
            })),
            (tick_advances(*old(self), input) && !(final(self).state is Running) && !(final(self).state is Completed)) ==> final(self).status == old(self).status,
    {
        if !matches!(self.state, SessionState::Running) {
            return;
        }
        if input.cancel_requested {
            self.release_monitor(slot);
            self.state = SessionState::Cancelled;
            return;
        }
        let TickInput {
            cancel_requested: _,
            mut alerts,
            consumed,
            reports,
            finished_trips,
            wall_elapsed,
        } = input;
        if alerts.len() > 0 {
            let alert = alerts.remove(0);
            self.release_monitor(slot);
            self.state = SessionState::CompletedWithAlert { alert };
            return;
        }
        let new_now = self.controller.apply(self.now, self.target, consumed);
        self.now = new_now;
        let mon = self.monitor.take();
        match mon {
            Some(mut am) => {
                let ghost rec0 = am.tracker.delayed@;
                let ghost obs0 = am.tracker.observed;
                let ghost limit0 = am.halt_limit;
                let ghost reps = abstract_reports(reports@);
                let mut k: usize = 0;
                while k < reports.len()
                    invariant
                        k <= reports@.len(),
                        am.halt_limit == limit0,
                        am.tracker.wf(),
                        am.tracker.delayed@ == record_run(rec0, reps.take(k as int)),
                        am.tracker.observed == if k == 0 {
                            obs0
                        } else {
                            reports@[k as int - 1].time
                        },
                        am.tracker.observed <= new_now,
                    decreases reports@.len() - k,
                {
                    proof {
                        assert(reps[k as int] == (reports@[k as int].congested@, reports@[
                            k as int].time));
                        assert(reps.take(k + 1).drop_last() =~= reps.take(k as int));
                        assert(reps.take(k + 1).last() == reps[k as int]);
                    }
                    let rep = &reports[k];
                    am.tracker.update(&rep.congested, rep.time);
                    k += 1;
                }
                proof {
                    assert(reps.take(reps.len() as int) =~= reps);
                }
                if new_now == self.target {
                    slot.release(am.token);
                    self.update_status(finished_trips, wall_elapsed);
                    self.state = SessionState::Completed;
                } else {
                    match am.tracker.halting_location(new_now, am.halt_limit) {
                        Some((location, first_seen)) => {
                            slot.release(am.token);
                            self.state = SessionState::Halted { location, first_seen };
                        }
                        None => {
                            self.monitor = Some(am);
                            self.update_status(finished_trips, wall_elapsed);
                        }
                    }
                }
            }
            None => {
                if new_now == self.target {
                    self.state = SessionState::Completed;
                }
                self.update_status(finished_trips, wall_elapsed);
            }
        }
    }

    /// Tears the session down when the orchestrator goes away: if this
    /// session still owns the monitor slot (it was still running), the
    /// periodic callback is unregistered and the slot released; nothing else
    /// changes.
    pub fn on_destroy(&mut self, slot: &mut MonitorSlot)
        ensures
            final(self).monitor is None,
            old(self).monitor is Some ==> !final(slot).taken(),
            old(self).monitor is None ==> *final(slot) == *old(slot),
            final(self).target == old(self).target,
            final(self).sim_time_started == old(self).sim_time_started,
            final(self).now == old(self).now,
            final(self).controller == old(self).controller,
            final(self).baseline == old(self).baseline,
            final(self).state == old(self).state,
            final(self).status == old(self).status,
    {
        self.release_monitor(slot);
    }
}

} // verus!
