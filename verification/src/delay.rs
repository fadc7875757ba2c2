//! The congestion monitor: a single-owner periodic-callback observer that
//! tracks which intersections are currently congested and since when, and the
//! process-wide ownership slot that keeps at most one monitor registered.

use vstd::prelude::*;

use crate::intersection::IntersectionID;

verus! {

/// Whether the record holds an entry for `loc`.
pub open spec fn record_has(rec: Seq<(IntersectionID, u64)>, loc: IntersectionID) -> bool {
    exists|i: int| 0 <= i < rec.len() && rec[i].0 == loc
}

/// Whether the record says `loc` was first seen congested at time `t`.
pub open spec fn record_has_pair(
    rec: Seq<(IntersectionID, u64)>,
    loc: IntersectionID,
    t: u64,
) -> bool {
    exists|i: int| 0 <= i < rec.len() && rec[i].0 == loc && rec[i].1 == t
}

/// Entries ordered by first-seen time, nondecreasing.
pub open spec fn times_sorted(rec: Seq<(IntersectionID, u64)>) -> bool {
    forall|i: int, j: int| 0 <= i <= j < rec.len() ==> rec[i].1 <= rec[j].1
}

/// At most one entry per intersection.
pub open spec fn ids_unique(rec: Seq<(IntersectionID, u64)>) -> bool {
    forall|i: int, j: int| 0 <= i < j < rec.len() ==> rec[i].0 != rec[j].0
}

/// Every first-seen time is at most `b`.
pub open spec fn times_at_most(rec: Seq<(IntersectionID, u64)>, b: u64) -> bool {
    forall|i: int| 0 <= i < rec.len() ==> rec[i].1 <= b
}

/// The entries of `rec` whose intersection is still reported congested.
pub open spec fn retained(
    rec: Seq<(IntersectionID, u64)>,
    congested: Seq<IntersectionID>,
) -> Seq<(IntersectionID, u64)>
    decreases rec.len(),
{
    if rec.len() == 0 {
        Seq::empty()
    } else if congested.contains(rec.last().0) {
        retained(rec.drop_last(), congested).push(rec.last())
    } else {
        retained(rec.drop_last(), congested)
    }
}

/// The reported intersections that the record does not hold yet, entered
/// with first-seen time `now`, in report order.
pub open spec fn newly_seen(
    rec: Seq<(IntersectionID, u64)>,
    congested: Seq<IntersectionID>,
    now: u64,
) -> Seq<(IntersectionID, u64)>
    decreases congested.len(),
{
    if congested.len() == 0 {
        Seq::empty()
    } else if record_has(rec, congested.last()) {
        newly_seen(rec, congested.drop_last(), now)
    } else {
        newly_seen(rec, congested.drop_last(), now).push((congested.last(), now))
    }
}

/// The delay record after one periodic callback at time `now` that reports
/// `congested` as the currently congested intersections.
pub open spec fn record_update(
    rec: Seq<(IntersectionID, u64)>,
    congested: Seq<IntersectionID>,
    now: u64,
) -> Seq<(IntersectionID, u64)> {
    retained(rec, congested) + newly_seen(rec, congested, now)
}

/// The delay record after a whole history of callbacks applied to `rec0`,
/// oldest report first.
pub open spec fn record_run(
    rec0: Seq<(IntersectionID, u64)>,
    reports: Seq<(Seq<IntersectionID>, u64)>,
) -> Seq<(IntersectionID, u64)>
    decreases reports.len(),
{
    if reports.len() == 0 {
        rec0
    } else {
        record_update(
            record_run(rec0, reports.drop_last()),
            reports.last().0,
            reports.last().1,
        )
    }
}

/// Callback histories compose: running the record through one batch of
/// reports and then another is running it through their concatenation.  This
/// chains the per-tick record of a session's monitor into one history, so
/// the continuity lemma below speaks about a whole session.
pub proof fn lemma_record_run_append(
    rec0: Seq<(IntersectionID, u64)>,
    a: Seq<(Seq<IntersectionID>, u64)>,
    b: Seq<(Seq<IntersectionID>, u64)>,
)
    ensures
        record_run(record_run(rec0, a), b) == record_run(rec0, a + b),
    decreases b.len(),
{
    if b.len() == 0 {
        assert(a + b =~= a);
    } else {
        lemma_record_run_append(rec0, a, b.drop_last());
        assert((a + b).drop_last() =~= a + b.drop_last());
        assert((a + b).last() == b.last());
    }
}

proof fn lemma_contains_drop_last(s: Seq<IntersectionID>, x: IntersectionID)
    requires
        s.len() > 0,
    ensures
        s.contains(x) <==> (s.drop_last().contains(x) || s.last() == x),
{
    if s.contains(x) {
        let i = choose|i: int| 0 <= i < s.len() && s[i] == x;
        if i < s.len() - 1 {
            assert(s.drop_last()[i] == x);
        }
    }
    if s.drop_last().contains(x) {
        let i = choose|i: int| 0 <= i < s.drop_last().len() && s.drop_last()[i] == x;
        assert(s[i] == x);
    }
    if s.last() == x {
        assert(s[s.len() - 1] == x);
    }
}

proof fn lemma_pair_in_push(
    s: Seq<(IntersectionID, u64)>,
    e: (IntersectionID, u64),
    loc: IntersectionID,
    t: u64,
)
    ensures
        record_has_pair(s.push(e), loc, t) <==> (record_has_pair(s, loc, t) || (e.0 == loc
            && e.1 == t)),
{
    if record_has_pair(s, loc, t) {
        let i = choose|i: int| 0 <= i < s.len() && s[i].0 == loc && s[i].1 == t;
        assert(s.push(e)[i].0 == loc && s.push(e)[i].1 == t);
    }
    if e.0 == loc && e.1 == t {
        assert(s.push(e)[s.len() as int].0 == loc && s.push(e)[s.len() as int].1 == t);
    }
    if record_has_pair(s.push(e), loc, t) {
        let i = choose|i: int| 0 <= i < s.push(e).len() && s.push(e)[i].0 == loc && s.push(e)[i].1
            == t;
        if i < s.len() {
            assert(s[i].0 == loc && s[i].1 == t);
        } else {
            assert(s.push(e)[i] == e);
        }
    }
}

proof fn lemma_pair_in_concat(
    a: Seq<(IntersectionID, u64)>,
    b: Seq<(IntersectionID, u64)>,
    loc: IntersectionID,
    t: u64,
)
    ensures
        record_has_pair(a + b, loc, t) <==> (record_has_pair(a, loc, t) || record_has_pair(
            b,
            loc,
            t,
        )),
{
    if record_has_pair(a, loc, t) {
        let i = choose|i: int| 0 <= i < a.len() && a[i].0 == loc && a[i].1 == t;
        assert((a + b)[i].0 == loc && (a + b)[i].1 == t);
    }
    if record_has_pair(b, loc, t) {
        let i = choose|i: int| 0 <= i < b.len() && b[i].0 == loc && b[i].1 == t;
        assert((a + b)[a.len() + i].0 == loc && (a + b)[a.len() + i].1 == t);
    }
    if record_has_pair(a + b, loc, t) {
        let i = choose|i: int| 0 <= i < (a + b).len() && (a + b)[i].0 == loc && (a + b)[i].1 == t;
        if i < a.len() {
            assert(a[i].0 == loc && a[i].1 == t);
        } else {
            assert(b[i - a.len()].0 == loc && b[i - a.len()].1 == t);
        }
    }
}

proof fn lemma_retained_membership(
    rec: Seq<(IntersectionID, u64)>,
    congested: Seq<IntersectionID>,
    loc: IntersectionID,
    t: u64,
)
    ensures
        record_has_pair(retained(rec, congested), loc, t) <==> (record_has_pair(rec, loc, t)
            && congested.contains(loc)),
    decreases rec.len(),
{
    if rec.len() > 0 {
        let d = rec.drop_last();
        let e = rec.last();
        lemma_retained_membership(d, congested, loc, t);
        assert(rec =~= d.push(e));
        lemma_pair_in_push(d, e, loc, t);
        if congested.contains(e.0) {
            lemma_pair_in_push(retained(d, congested), e, loc, t);
        }
    }
}

proof fn lemma_newly_membership(
    rec: Seq<(IntersectionID, u64)>,
    congested: Seq<IntersectionID>,
    now: u64,
    loc: IntersectionID,
    t: u64,
)
    ensures
        record_has_pair(newly_seen(rec, congested, now), loc, t) <==> (congested.contains(loc)
            && !record_has(rec, loc) && t == now),
    decreases congested.len(),
{
    if congested.len() > 0 {
        let d = congested.drop_last();
        let x = congested.last();
        lemma_newly_membership(rec, d, now, loc, t);
        lemma_contains_drop_last(congested, loc);
        if !record_has(rec, x) {
            lemma_pair_in_push(newly_seen(rec, d, now), (x, now), loc, t);
        }
    }
}

/// What one periodic callback does to the delay record: an intersection is
/// recorded exactly while it is reported congested, keeping its original
/// first-seen time if it was already recorded and entering with first-seen
/// time `now` otherwise; anything no longer reported is removed on the spot.
pub proof fn lemma_update_membership(
    rec: Seq<(IntersectionID, u64)>,
    congested: Seq<IntersectionID>,
    now: u64,
    loc: IntersectionID,
    t: u64,
)
    ensures
        record_has_pair(record_update(rec, congested, now), loc, t) <==> (congested.contains(loc)
            && (record_has_pair(rec, loc, t) || (!record_has(rec, loc) && t == now))),
{
    lemma_retained_membership(rec, congested, loc, t);
    lemma_newly_membership(rec, congested, now, loc, t);
    lemma_pair_in_concat(retained(rec, congested), newly_seen(rec, congested, now), loc, t);
    if record_has_pair(rec, loc, t) {
        let i = choose|i: int| 0 <= i < rec.len() && rec[i].0 == loc && rec[i].1 == t;
        assert(rec[i].0 == loc);
    }
}

/// Continuity of the delay record: whatever the record holds after a history
/// of callbacks (starting from an empty record) entered at one of those
/// callbacks, and has been reported congested by that callback and by every
/// later one, with no intervening "not congested" report.  The returned
/// index is the callback at which the entry was first seen.
pub proof fn lemma_continuously_congested(
    reports: Seq<(Seq<IntersectionID>, u64)>,
    loc: IntersectionID,
    t: u64,
) -> (i: int)
    requires
        record_has_pair(record_run(Seq::empty(), reports), loc, t),
    ensures
        0 <= i < reports.len(),
        reports[i].1 == t,
        forall|j: int| i <= j < reports.len() ==> reports[j].0.contains(loc),
    decreases reports.len(),
{
    if reports.len() == 0 {
        assert(false);
        0
    } else {
        let d = reports.drop_last();
        let prev = record_run(Seq::empty(), d);
        let congested = reports.last().0;
        let now = reports.last().1;
        lemma_update_membership(prev, congested, now, loc, t);
        assert(congested.contains(loc));
        assert(reports[reports.len() - 1].0 == congested);
        if record_has_pair(prev, loc, t) {
            let i = lemma_continuously_congested(d, loc, t);
            assert(d[i] == reports[i]);
            assert forall|j: int| i <= j < reports.len() implies reports[j].0.contains(loc) by {
                if j < reports.len() - 1 {
                    assert(d[j] == reports[j]);
                }
            }
            i
        } else {
            let i = reports.len() - 1;
            assert(reports[i].1 == t);
            i
        }
    }
}

proof fn lemma_retained_at_most(
    rec: Seq<(IntersectionID, u64)>,
    congested: Seq<IntersectionID>,
    b: u64,
)
    requires
        times_at_most(rec, b),
    ensures
        times_at_most(retained(rec, congested), b),
    decreases rec.len(),
{
    if rec.len() > 0 {
        let d = rec.drop_last();
        assert(forall|i: int| 0 <= i < d.len() ==> d[i] == rec[i]);
        lemma_retained_at_most(d, congested, b);
        if congested.contains(rec.last().0) {
            let r2 = retained(d, congested).push(rec.last());
            assert forall|k: int| 0 <= k < r2.len() implies r2[k].1 <= b by {
                if k < r2.len() - 1 {
                    assert(r2[k] == retained(d, congested)[k]);
                } else {
                    assert(r2[k] == rec[rec.len() - 1]);
                }
            }
        }
    }
}

proof fn lemma_retained_wf(rec: Seq<(IntersectionID, u64)>, congested: Seq<IntersectionID>)
    requires
        times_sorted(rec),
        ids_unique(rec),
    ensures
        times_sorted(retained(rec, congested)),
        ids_unique(retained(rec, congested)),
    decreases rec.len(),
{
    if rec.len() > 0 {
        let d = rec.drop_last();
        let e = rec.last();
        assert(forall|i: int| 0 <= i < d.len() ==> d[i] == rec[i]);
        lemma_retained_wf(d, congested);
        assert(times_at_most(d, e.1)) by {
            assert(forall|i: int|
                0 <= i < d.len() ==> d[i].1 <= #[trigger] rec[i].1 && rec[i].1 <= rec[rec.len()
                    - 1].1);
        }
        lemma_retained_at_most(d, congested, e.1);
        if congested.contains(e.0) {
            let r1 = retained(d, congested);
            let r2 = r1.push(e);
            assert(retained(rec, congested) == r2);
            assert forall|i: int, j: int| 0 <= i <= j < r2.len() implies r2[i].1 <= r2[j].1 by {
                if j < r2.len() - 1 {
                    assert(r2[i] == r1[i] && r2[j] == r1[j]);
                } else if i < j {
                    assert(r2[i] == r1[i] && r1[i].1 <= e.1);
                }
            }
            assert forall|i: int, j: int| 0 <= i < j < r2.len() implies r2[i].0 != r2[j].0 by {
                if j == r2.len() - 1 {
                    assert(r1[i].0 == r2[i].0 && r1[i].1 == r2[i].1);
                    assert(record_has_pair(r1, r2[i].0, r2[i].1));
                    lemma_retained_membership(d, congested, r2[i].0, r2[i].1);
                    assert(record_has_pair(d, r2[i].0, r2[i].1));
                    let m = choose|m: int|
                        0 <= m < d.len() && d[m].0 == r2[i].0 && d[m].1 == r2[i].1;
                    assert(rec[m].0 != rec[rec.len() - 1].0);
                } else {
                    assert(r2[i] == r1[i] && r2[j] == r1[j]);
                }
            }
        }
    }
}

proof fn lemma_newly_wf(rec: Seq<(IntersectionID, u64)>, congested: Seq<IntersectionID>, now: u64)
    requires
        forall|i: int, j: int| 0 <= i < j < congested.len() ==> congested[i] != congested[j],
    ensures
        times_at_most(newly_seen(rec, congested, now), now),
        forall|k: int|
            0 <= k < newly_seen(rec, congested, now).len() ==> #[trigger] newly_seen(
                rec,
                congested,
                now,
            )[k].1 == now,
        ids_unique(newly_seen(rec, congested, now)),
    decreases congested.len(),
{
    if congested.len() > 0 {
        let d = congested.drop_last();
        let x = congested.last();
        assert(forall|i: int| 0 <= i < d.len() ==> d[i] == congested[i]);
        lemma_newly_wf(rec, d, now);
        let n1 = newly_seen(rec, d, now);
        if !record_has(rec, x) {
            let n2 = n1.push((x, now));
            assert(newly_seen(rec, congested, now) == n2);
            assert forall|k: int| 0 <= k < n2.len() implies n2[k].1 == now by {
                if k < n2.len() - 1 {
                    assert(n2[k] == n1[k]);
                }
            }
            assert forall|i: int, j: int| 0 <= i < j < n2.len() implies n2[i].0 != n2[j].0 by {
                if j == n2.len() - 1 {
                    assert(n1[i].0 == n2[i].0 && n1[i].1 == n2[i].1);
                    assert(record_has_pair(n1, n2[i].0, n2[i].1));
                    lemma_newly_membership(rec, d, now, n2[i].0, n2[i].1);
                    assert(d.contains(n2[i].0));
                    let m = choose|m: int| 0 <= m < d.len() && d[m] == n2[i].0;
                    assert(congested[m] != congested[congested.len() - 1]);
                } else {
                    assert(n2[i] == n1[i] && n2[j] == n1[j]);
                }
            }
        }
    }
}

proof fn lemma_update_wf(
    rec: Seq<(IntersectionID, u64)>,
    congested: Seq<IntersectionID>,
    now: u64,
    b: u64,
)
    requires
        times_sorted(rec),
        ids_unique(rec),
        times_at_most(rec, b),
        b <= now,
        forall|i: int, j: int| 0 <= i < j < congested.len() ==> congested[i] != congested[j],
    ensures
        times_sorted(record_update(rec, congested, now)),
        ids_unique(record_update(rec, congested, now)),
        times_at_most(record_update(rec, congested, now), now),
{
    lemma_retained_wf(rec, congested);
    lemma_retained_at_most(rec, congested, b);
    lemma_newly_wf(rec, congested, now);
    let r = retained(rec, congested);
    let nn = newly_seen(rec, congested, now);
    let u = record_update(rec, congested, now);
    assert forall|i: int, j: int| 0 <= i <= j < u.len() implies u[i].1 <= u[j].1 by {
        if j < r.len() {
            assert(u[i] == r[i] && u[j] == r[j]);
        } else if i < r.len() {
            assert(u[i] == r[i] && u[j] == nn[j - r.len()]);
        } else {
            assert(u[i] == nn[i - r.len()] && u[j] == nn[j - r.len()]);
        }
    }
    assert forall|i: int, j: int| 0 <= i < j < u.len() implies u[i].0 != u[j].0 by {
        if j < r.len() {
            assert(u[i] == r[i] && u[j] == r[j]);
        } else if i < r.len() {
            assert(u[i] == r[i] && u[j] == nn[j - r.len()]);
            assert(record_has_pair(r, u[i].0, u[i].1));
            assert(record_has_pair(nn, u[j].0, u[j].1));
            lemma_retained_membership(rec, congested, u[i].0, u[i].1);
            lemma_newly_membership(rec, congested, now, u[j].0, u[j].1);
            let m = choose|m: int| 0 <= m < rec.len() && rec[m].0 == u[i].0 && rec[m].1 == u[i].1;
            assert(record_has(rec, u[i].0));
        } else {
            assert(u[i] == nn[i - r.len()] && u[j] == nn[j - r.len()]);
        }
    }
    assert forall|k: int| 0 <= k < u.len() implies u[k].1 <= now by {
        if k < r.len() {
            assert(u[k] == r[k]);
        } else {
            assert(u[k] == nn[k - r.len()]);
        }
    }
}

fn contains_loc(v: &Vec<IntersectionID>, loc: IntersectionID) -> (r: bool)
    ensures
        r == v@.contains(loc),
{
    let mut i: usize = 0;
    while i < v.len()
        invariant
            i <= v@.len(),
            forall|k: int| 0 <= k < i ==> v@[k] != loc,
        decreases v@.len() - i,
    {
        if v[i] == loc {
            assert(v@[i as int] == loc);
            return true;
        }
        i += 1;
    }
    false
}

fn rec_has_loc(v: &Vec<(IntersectionID, u64)>, loc: IntersectionID) -> (r: bool)
    ensures
        r == record_has(v@, loc),
{
    let mut i: usize = 0;
    while i < v.len()
        invariant
            i <= v@.len(),
            forall|k: int| 0 <= k < i ==> v@[k].0 != loc,
        decreases v@.len() - i,
    {
        if v[i].0 == loc {
            assert(v@[i as int].0 == loc);
            return true;
        }
        i += 1;
    }
    false
}

/// The delay monitor.  The engine invokes `update` at every periodic-callback
/// boundary with the set of currently congested intersections; the monitor
/// keeps, per congested intersection, the simulated time it was first seen.
pub struct DelayMonitor {
    /// One entry per currently congested intersection, ordered by first-seen
    /// time.
    pub delayed: Vec<(IntersectionID, u64)>,
    /// Simulated time of the most recent callback, or of registration before
    /// the first one.
    pub observed: u64,
}

impl DelayMonitor {
    /// The monitor's internal invariant: entries sorted by first-seen time,
    /// one per intersection, none seen later than the last callback.
    pub open spec fn wf(self) -> bool {
        &&& times_sorted(self.delayed@)
        &&& ids_unique(self.delayed@)
        &&& times_at_most(self.delayed@, self.observed)
    }

    /// A fresh monitor, registered at simulated time `start` with an empty
    /// delay record.
    pub fn new(start: u64) -> (r: Self)
        ensures
            r.wf(),
            r.delayed@ == Seq::<(IntersectionID, u64)>::empty(),
            r.observed == start,
    {
        DelayMonitor { delayed: Vec::new(), observed: start }
    }

    /// One periodic callback: the engine reports the set of currently
    /// congested intersections (no duplicates) at simulated time `now`,
    /// strictly after every earlier callback.
    #[verifier::loop_isolation(false)]
    pub fn update(&mut self, congested: &Vec<IntersectionID>, now: u64)
        requires
            old(self).wf(),
            now > old(self).observed,
            forall|i: int, j: int| 0 <= i < j < congested@.len() ==> congested@[i] != congested@[j],
        ensures
            final(self).wf(),
            final(self).observed == now,
            final(self).delayed@ == record_update(old(self).delayed@, congested@, now),
    {
        let ghost rec0 = self.delayed@;
        let mut kept: Vec<(IntersectionID, u64)> = Vec::new();
        let mut i: usize = 0;
        while i < self.delayed.len()
            invariant
                i <= self.delayed@.len(),
                kept@ == retained(self.delayed@.take(i as int), congested@),
            decreases self.delayed@.len() - i,
        {
            let (loc, t) = self.delayed[i];
            proof {
                assert(self.delayed@.take(i + 1).drop_last() =~= self.delayed@.take(i as int));
                assert(self.delayed@.take(i + 1).last() == self.delayed@[i as int]);
            }
            if contains_loc(congested, loc) {
                kept.push((loc, t));
            }
            i += 1;
        }
        proof {
            assert(self.delayed@.take(self.delayed@.len() as int) =~= self.delayed@);
        }
        let mut j: usize = 0;
        while j < congested.len()
            invariant
                j <= congested@.len(),
                kept@ == retained(rec0, congested@) + newly_seen(rec0, congested@.take(j as int), now),
            decreases congested@.len() - j,
        {
            let loc = congested[j];
            proof {
                assert(congested@.take(j + 1).drop_last() =~= congested@.take(j as int));
                assert(congested@.take(j + 1).last() == congested@[j as int]);
            }
            if !rec_has_loc(&self.delayed, loc) {
                kept.push((loc, now));
            }
            j += 1;
        }
        proof {
            assert(congested@.take(congested@.len() as int) =~= congested@);
            lemma_update_wf(rec0, congested@, now, self.observed);
        }
        self.delayed = kept;
        self.observed = now;
    }

    /// The earliest congested intersection whose delay has reached
    /// `halt_limit` at simulated time `now`, if there is one.
    pub fn halting_location(&self, now: u64, halt_limit: u64) -> (r: Option<(IntersectionID, u64)>)
        requires
            self.wf(),
            now >= self.observed,
        ensures
            match r {
                Some(p) => self.delayed@.len() > 0 && p == self.delayed@[0] && now - p.1
                    >= halt_limit && forall|i: int|
                    0 <= i < self.delayed@.len() ==> p.1 <= #[trigger] self.delayed@[i].1,
                None => forall|i: int|
                    0 <= i < self.delayed@.len() ==> now - #[trigger] self.delayed@[i].1
                        < halt_limit,
            },
    {
        if self.delayed.len() > 0 {
            let (loc, t) = self.delayed[0];
            if now - t >= halt_limit {
                return Some((loc, t));
            }
            proof {
                assert forall|i: int|
                    0 <= i < self.delayed@.len() implies now - #[trigger] self.delayed@[i].1
                    < halt_limit by {
                    assert(self.delayed@[0].1 <= self.delayed@[i].1);
                }
            }
        }
        None
    }
}

/// Grants use of the engine's single periodic-callback registration.  Only
/// `MonitorSlot::acquire` hands these out; releasing the slot consumes it.
pub struct MonitorHandle {
    reserved: bool,
}

/// The process-wide monitor-registration slot: at most one live owner.
/// Acquired when a time-warp session registers a delay monitor, released on
/// every session-terminating transition.
pub struct MonitorSlot {
    in_use: bool,
}

impl MonitorSlot {
    /// Whether some session currently owns the slot.
    pub closed spec fn taken(self) -> bool {
        self.in_use
    }

    /// A fresh, free slot.
    pub fn new() -> (r: Self)
        ensures
            !r.taken(),
    {
        MonitorSlot { in_use: false }
    }

    /// Requests ownership.  A handle comes back exactly when the slot was
    /// free; a second live registration is refused, not an error.
    pub fn acquire(&mut self) -> (r: Option<MonitorHandle>)
        ensures
            final(self).taken(),
            r is Some <==> !old(self).taken(),
    {
        if self.in_use {
            None
        } else {
            self.in_use = true;
            Some(MonitorHandle { reserved: true })
        }
    }

    /// Returns ownership; the handle is consumed, so a given acquisition can
    /// release the slot at most once.
    pub fn release(&mut self, handle: MonitorHandle)
        ensures
            !final(self).taken(),
    {
        let _ = handle;
        self.in_use = false;
    }
}

} // verus!
