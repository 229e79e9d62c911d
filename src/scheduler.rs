use vstd::prelude::*;

verus! {

/// How a source is triggered: every `interval_nanos`, counted from its
/// registration.
#[derive(Clone, Copy, Debug, PartialEq, Eq, Structural)]
pub struct TriggerSpec {
    pub interval_nanos: u64,
}

impl TriggerSpec {
    pub fn at_interval(interval_nanos: u64) -> (r: TriggerSpec)
        ensures
            r.interval_nanos == interval_nanos,
    {
        TriggerSpec { interval_nanos }
    }
}

/// The schedule of one source.
#[derive(Clone, Copy, Debug, PartialEq, Eq, Structural)]
pub struct TriggerState {
    pub interval: u64,
    /// The earliest time of the next poll.
    pub next_due: u64,
    /// A poll has been issued and has not finished yet.
    pub in_flight: bool,
    /// The source was dropped: it never fires again.
    pub removed: bool,
}

pub open spec fn sat_add(a: u64, b: u64) -> u64 {
    if a + b > u64::MAX {
        u64::MAX
    } else {
        (a + b) as u64
    }
}

/// True when the source of `tr` is to be polled at time `now`.
pub open spec fn fires(tr: TriggerState, now: u64) -> bool {
    !tr.removed && !tr.in_flight && tr.next_due <= now
}

/// The next due time after a poll that finished at `now`: one interval after
/// the previous one, or `now` when the poll overran it.
pub open spec fn next_due_after(tr: TriggerState, now: u64) -> u64 {
    let nd = sat_add(tr.next_due, tr.interval);
    if nd < now {
        now
    } else {
        nd
    }
}

/// The state of a trigger once its in-flight poll has finished at `now`.
pub open spec fn finished(tr: TriggerState, now: u64, stopping: bool) -> TriggerState {
    if stopping {
        TriggerState { in_flight: false, removed: true, ..tr }
    } else {
        TriggerState { next_due: next_due_after(tr, now), in_flight: false, ..tr }
    }
}

/// The state of a trigger when the pipeline stops: an idle source is dropped,
/// one with a poll in flight is left to drain.
pub open spec fn stopped(tr: TriggerState) -> TriggerState {
    if tr.in_flight {
        tr
    } else {
        TriggerState { removed: true, ..tr }
    }
}

/// What `Scheduler::due` at time `now` returns and leaves.
pub open spec fn due_result(
    before: Seq<TriggerState>,
    stopping: bool,
    now: u64,
    r: Seq<usize>,
    after: Seq<TriggerState>,
) -> bool {
    &&& stopping ==> r.len() == 0 && after == before
    &&& !stopping ==> {
                &&& forall|k: int|
                    0 <= k < r.len() ==> #[trigger] r[k] < before.len() && fires(
                        before[r[k] as int],
                        now,
                    )
                &&& forall|k1: int, k2: int|
                    0 <= k1 < k2 < r.len() ==> #[trigger] r[k1] < #[trigger] r[k2]
                &&& forall|i: int|
                    0 <= i < before.len() && #[trigger] fires(before[i], now) ==> r.contains(
                        i as usize,
                    )
                &&& after.len() == before.len()
                &&& forall|i: int|
                    0 <= i < before.len() ==> #[trigger] after[i] == if fires(
                        before[i],
                        now,
                    ) {
                        TriggerState { in_flight: true, ..before[i] }
                    } else {
                        before[i]
                    }
            }
}

/// What `Scheduler::stop` leaves.
pub open spec fn stop_result(before: Seq<TriggerState>, after: Seq<TriggerState>) -> bool {
    &&& after.len() == before.len()
    &&& forall|i: int| 0 <= i < before.len() ==> #[trigger] after[i] == stopped(before[i])
}

/// Drives the polls of every source, each on its own schedule, with at most one
/// poll in flight per source.
pub struct Scheduler {
    triggers: Vec<TriggerState>,
    stopping: bool,
}

impl View for Scheduler {
    type V = Seq<TriggerState>;

    closed spec fn view(&self) -> Seq<TriggerState> {
        self.triggers@
    }
}

impl Scheduler {
    pub closed spec fn is_stopping(&self) -> bool {
        self.stopping
    }

    pub fn new() -> (r: Scheduler)
        ensures
            r@.len() == 0,
            !r.is_stopping(),
    {
        Scheduler { triggers: Vec::new(), stopping: false }
    }

    pub fn len(&self) -> (r: usize)
        ensures
            r == self@.len(),
    {
        self.triggers.len()
    }

    pub fn stopping(&self) -> (r: bool)
        ensures
            r == self.is_stopping(),
    {
        self.stopping
    }

    pub fn trigger(&self, i: usize) -> (r: TriggerState)
        requires
            i < self@.len(),
        ensures
            r == self@[i as int],
    {
        self.triggers[i]
    }

    /// Registers the schedule of a new source at time `now`; its first poll is
    /// one interval later.
    pub fn add(&mut self, spec: TriggerSpec, now: u64) -> (r: usize)
        ensures
            r == old(self)@.len(),
            final(self).is_stopping() == old(self).is_stopping(),
            final(self)@ == old(self)@.push(
                TriggerState {
                    interval: spec.interval_nanos,
                    next_due: sat_add(now, spec.interval_nanos),
                    in_flight: false,
                    removed: old(self).is_stopping(),
                },
            ),
    {
        let next_due = now.saturating_add(spec.interval_nanos);
        let r = self.triggers.len();
        self.triggers.push(
            TriggerState {
                interval: spec.interval_nanos,
                next_due,
                in_flight: false,
                removed: self.stopping,
            },
        );
        r
    }

    /// The sources to poll at time `now`, in increasing order; each is marked
    /// in flight. Nothing fires once the scheduler is stopping.
    pub fn due(&mut self, now: u64) -> (r: Vec<usize>)
        ensures
            final(self).is_stopping() == old(self).is_stopping(),
            due_result(old(self)@, old(self).is_stopping(), now, r@, final(self)@),
    {
        let mut r: Vec<usize> = Vec::new();
        if self.stopping {
            return r;
        }
        let n = self.triggers.len();
        let mut i: usize = 0;
        while i < n
            invariant
                n == old(self)@.len(),
                i <= n,
                self.triggers@.len() == n,
                !self.stopping,
                self.stopping == old(self).is_stopping(),
                forall|k: int| 0 <= k < r@.len() ==> #[trigger] r@[k] < i && fires(old(self)@[r@[k] as int], now),
                forall|k1: int, k2: int| 0 <= k1 < k2 < r@.len() ==> #[trigger] r@[k1] < #[trigger] r@[k2],
                forall|j: int| 0 <= j < i && #[trigger] fires(old(self)@[j], now) ==> r@.contains(j as usize),
                forall|j: int|
                    0 <= j < n ==> #[trigger] self.triggers@[j] == if j < i && fires(old(self)@[j], now) {
                        TriggerState { in_flight: true, ..old(self)@[j] }
                    } else {
                        old(self)@[j]
                    },
            decreases n - i,
        {
            let tr = self.triggers[i];
            if !tr.removed && !tr.in_flight && tr.next_due <= now {
                self.triggers.set(i, TriggerState { in_flight: true, ..tr });
                let ghost before = r@;
                r.push(i);
                proof {
                    assert(r@[before.len() as int] == i);
                    assert forall|j: int| 0 <= j < i + 1 && #[trigger] fires(old(self)@[j], now) implies r@.contains(j as usize) by {
                        if j < i {
                            let k = choose|k: int| 0 <= k < before.len() && before[k] == j as usize;
                            assert(r@[k] == j as usize);
                        } else {
                            assert(r@[before.len() as int] == j as usize);
                        }
                    }
                }
            }
            i = i + 1;
        }
        r
    }

    /// Records that the poll of source `i` finished at time `now`. Returns
    /// whether a poll was in flight, whose points are then to be delivered.
    /// A source whose poll finishes after a stop is dropped.
    pub fn finish(&mut self, i: usize, now: u64) -> (delivered: bool)
        requires
            i < old(self)@.len(),
        ensures
            delivered == old(self)@[i as int].in_flight,
            final(self).is_stopping() == old(self).is_stopping(),
            final(self)@ == if delivered {
                old(self)@.update(i as int, finished(old(self)@[i as int], now, old(self).is_stopping()))
            } else {
                old(self)@
            },
    {
        let tr = self.triggers[i];
        if !tr.in_flight {
            return false;
        }
        if self.stopping {
            self.triggers.set(i, TriggerState { in_flight: false, removed: true, ..tr });
        } else {
            let nd = tr.next_due.saturating_add(tr.interval);
            let next_due = if nd < now {
                now
            } else {
                nd
            };
            self.triggers.set(i, TriggerState { next_due, in_flight: false, ..tr });
        }
        true
    }

    /// Stops issuing polls. Idle sources are dropped at once; a source with a
    /// poll in flight is dropped when that poll finishes.
    pub fn stop(&mut self)
        ensures
            final(self).is_stopping(),
            stop_result(old(self)@, final(self)@),
    {
        self.stopping = true;
        let n = self.triggers.len();
        let mut i: usize = 0;
        while i < n
            invariant
                n == old(self)@.len(),
                i <= n,
                self.stopping,
                self.triggers@.len() == n,
                forall|j: int|
                    0 <= j < n ==> #[trigger] self.triggers@[j] == if j < i {
                        stopped(old(self)@[j])
                    } else {
                        old(self)@[j]
                    },
            decreases n - i,
        {
            let tr = self.triggers[i];
            if !tr.in_flight {
                self.triggers.set(i, TriggerState { removed: true, ..tr });
            }
            i = i + 1;
        }
    }

    /// True when every source has been dropped.
    pub fn is_drained(&self) -> (r: bool)
        ensures
            r == forall|i: int| 0 <= i < self@.len() ==> (#[trigger] self@[i]).removed,
    {
        let n = self.triggers.len();
        let mut i: usize = 0;
        while i < n
            invariant
                n == self@.len(),
                i <= n,
                forall|j: int| 0 <= j < i ==> (#[trigger] self@[j]).removed,
            decreases n - i,
        {
            if !self.triggers[i].removed {
                return false;
            }
            i = i + 1;
        }
        true
    }
}

/// A stop that comes while a poll is in flight lets that poll run to its end
/// and its points be delivered; the source is then dropped and never fires
/// again.
pub proof fn lemma_drain_then_stop(tr: TriggerState, done_at: u64, later: u64)
    requires
        tr.in_flight,
    ensures
        stopped(tr) == tr,
        stopped(tr).in_flight,
        finished(stopped(tr), done_at, true).removed,
        !fires(finished(stopped(tr), done_at, true), later),
{
}

/// Once dropped, a source never fires, at any time.
pub proof fn lemma_removed_never_fires(tr: TriggerState, now: u64)
    requires
        tr.removed,
    ensures
        !fires(tr, now),
        !fires(stopped(tr), now),
{
}

/// A dropped source never has a poll in flight.
pub open spec fn removed_idle(s: Seq<TriggerState>) -> bool {
    forall|i: int| 0 <= i < s.len() ==> (#[trigger] s[i]).removed ==> !s[i].in_flight
}

/// Every operation of the scheduler keeps dropped sources idle: adding a
/// source, issuing the polls that are due, finishing a poll, and stopping.
pub proof fn lemma_removed_stays_idle(
    before: Seq<TriggerState>,
    added: TriggerState,
    stopping: bool,
    now: u64,
    due: Seq<usize>,
    after_due: Seq<TriggerState>,
    i: int,
    after_stop: Seq<TriggerState>,
)
    requires
        removed_idle(before),
        !added.in_flight,
        due_result(before, stopping, now, due, after_due),
        stop_result(before, after_stop),
        0 <= i < before.len(),
    ensures
        removed_idle(before.push(added)),
        removed_idle(after_due),
        removed_idle(
            if before[i].in_flight {
                before.update(i, finished(before[i], now, stopping))
            } else {
                before
            },
        ),
        removed_idle(after_stop),
{
    let pushed = before.push(added);
    assert forall|j: int| 0 <= j < pushed.len() implies (#[trigger] pushed[j]).removed
        ==> !pushed[j].in_flight by {
        if j < before.len() {
            assert(pushed[j] == before[j]);
        }
    }
    assert forall|j: int| 0 <= j < after_due.len() implies (#[trigger] after_due[j]).removed
        ==> !after_due[j].in_flight by {
        if !stopping {
            assert(after_due[j] == if fires(before[j], now) {
                TriggerState { in_flight: true, ..before[j] }
            } else {
                before[j]
            });
        }
    }
    assert forall|j: int| 0 <= j < after_stop.len() implies (#[trigger] after_stop[j]).removed
        ==> !after_stop[j].in_flight by {
        assert(after_stop[j] == stopped(before[j]));
    }
}

/// The polls that a tick runs are those in flight, so a source that was
/// dropped (after a stop and the drain of its last poll) is never polled
/// again and none of its points reaches an output.
pub proof fn lemma_dropped_source_never_polled(s: Seq<TriggerState>, fired: Seq<usize>)
    requires
        removed_idle(s),
        forall|k: int| 0 <= k < fired.len() ==> fired[k] < s.len(),
        forall|k: int| 0 <= k < fired.len() ==> (#[trigger] s[fired[k] as int]).in_flight,
    ensures
        forall|k: int| 0 <= k < fired.len() ==> !(#[trigger] s[fired[k] as int]).removed,
{
    assert forall|k: int| 0 <= k < fired.len() implies !(#[trigger] s[fired[k] as int]).removed by {
        assert(s[fired[k] as int].in_flight);
    }
}

} // verus!
