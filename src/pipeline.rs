use vstd::prelude::*;
use crate::measurement::{MeasurementAccumulator, MeasurementBuffer, MeasurementPoint, Timestamp};
use crate::metrics::{
    has_name, MetricDefinition, MetricError, MetricRegistry, MetricType, RawMetricId, TypedMetricId,
    Unit,
};
use crate::scheduler::{
    due_result, finished, sat_add, stop_result, Scheduler, TriggerSpec, TriggerState,
};
use crate::stages::{extends, Output, PollError, Source, Transform, TransformError, WriteError};
use crate::text::PointText;

verus! {

/// Errors of stage registration.
#[derive(Clone, Copy, Debug, PartialEq, Eq, Structural)]
pub enum StageError {
    /// Stages can only be added during the start phase.
    OutsideStartPhase,
}

/// The points that a tick keeps from its polls: those of the successful ones,
/// in the order in which the sources were polled.
pub open spec fn concat_ok(
    pushed: Seq<Seq<MeasurementPoint>>,
    results: Seq<Result<(), PollError>>,
) -> Seq<MeasurementPoint>
    decreases pushed.len(),
{
    if pushed.len() == 0 || results.len() != pushed.len() {
        Seq::empty()
    } else {
        concat_ok(pushed.drop_last(), results.drop_last()) + if results.last() is Ok {
            pushed.last()
        } else {
            Seq::empty()
        }
    }
}

/// Each position appears once, and names a registered source.
pub open spec fn distinct_in_range(fired: Seq<usize>, n: int) -> bool {
    &&& forall|k: int| 0 <= k < fired.len() ==> #[trigger] fired[k] < n
    &&& forall|k1: int, k2: int|
        0 <= k1 < fired.len() && 0 <= k2 < fired.len() && k1 != k2 ==> #[trigger] fired[k1]
            != #[trigger] fired[k2]
}

/// Every point carries the time `t`.
pub open spec fn all_at(s: Seq<MeasurementPoint>, t: Timestamp) -> bool {
    forall|i: int| 0 <= i < s.len() ==> (#[trigger] s[i]).timestamp == t
}

/// The sources at the positions `fired` were each polled once at time `t`,
/// pushing `pushed[k]` with outcome `results[k]`; the others are untouched,
/// and `merged` is what the successful polls pushed.
pub open spec fn poll_trace<S: Source>(
    before: Seq<S>,
    after: Seq<S>,
    fired: Seq<usize>,
    t: Timestamp,
    results: Seq<Result<(), PollError>>,
    merged: Seq<MeasurementPoint>,
    pushed: Seq<Seq<MeasurementPoint>>,
) -> bool {
    &&& pushed.len() == fired.len()
    &&& results.len() == fired.len()
    &&& after.len() == before.len()
    &&& forall|i: int|
        0 <= i < before.len() && !fired.contains(i as usize) ==> #[trigger] after[i] == before[i]
    &&& forall|k: int|
        0 <= k < fired.len() ==> S::polled(
            before[#[trigger] fired[k] as int],
            after[fired[k] as int],
            t,
            pushed[k],
            results[k] is Ok,
        )
    &&& merged == concat_ok(pushed, results)
    &&& all_at(merged, t)
}

/// The transforms ran in order: transform `i` got `bufs[i]` and left
/// `bufs[i + 1]`, so each one sees what all earlier ones produced this tick.
pub open spec fn transform_chain<T: Transform>(
    before: Seq<T>,
    after: Seq<T>,
    input: Seq<MeasurementPoint>,
    output: Seq<MeasurementPoint>,
    results: Seq<Result<(), TransformError>>,
    bufs: Seq<Seq<MeasurementPoint>>,
) -> bool {
    &&& after.len() == before.len()
    &&& results.len() == before.len()
    &&& bufs.len() == before.len() + 1
    &&& bufs[0] == input
    &&& bufs.last() == output
    &&& forall|i: int|
        0 <= i < before.len() ==> T::applied(
            #[trigger] before[i],
            after[i],
            bufs[i],
            bufs[i + 1],
            results[i],
        )
}

/// Every output was handed the same final buffer once.
pub open spec fn outputs_wrote<O: Output>(
    before: Seq<O>,
    after: Seq<O>,
    input: Seq<MeasurementPoint>,
    defs: Seq<MetricDefinition>,
    texts: Seq<PointText>,
    results: Seq<Result<(), WriteError>>,
) -> bool {
    &&& after.len() == before.len()
    &&& results.len() == before.len()
    &&& forall|i: int|
        0 <= i < before.len() ==> O::wrote(
            #[trigger] before[i],
            after[i],
            input,
            defs,
            texts,
            results[i],
        )
}

/// What one tick did.
pub struct TickReport {
    /// The outcome of each fired source, in firing order.
    pub poll_results: Vec<Result<(), PollError>>,
    /// The outcome of each transform, in registration order.
    pub transform_results: Vec<Result<(), TransformError>>,
    /// The final buffer, to be handed to the outputs.
    pub delivered: MeasurementBuffer,
}

/// A measurement pipeline: sources, an ordered chain of transforms, outputs,
/// and the registry of their metrics.
pub struct Pipeline<S, T, O> {
    metrics: MetricRegistry,
    sources: Vec<S>,
    transforms: Vec<T>,
    outputs: Vec<O>,
    blocking: Vec<bool>,
    scheduler: Scheduler,
}

impl<S: Source, T: Transform, O: Output> Pipeline<S, T, O> {
    pub closed spec fn registry(&self) -> MetricRegistry {
        self.metrics
    }

    pub closed spec fn sources(&self) -> Seq<S> {
        self.sources@
    }

    pub closed spec fn transforms(&self) -> Seq<T> {
        self.transforms@
    }

    pub closed spec fn outputs(&self) -> Seq<O> {
        self.outputs@
    }

    /// Which outputs must run on an execution context of their own.
    pub closed spec fn blocking(&self) -> Seq<bool> {
        self.blocking@
    }

    pub closed spec fn schedule(&self) -> Scheduler {
        self.scheduler
    }

    pub open spec fn wf(&self) -> bool {
        &&& self.registry().wf()
        &&& self.schedule()@.len() == self.sources().len()
        &&& self.blocking().len() == self.outputs().len()
    }

    /// True when `self` and `other` hold the same stages and schedule.
    pub open spec fn same_stages(&self, other: &Self) -> bool {
        &&& self.sources() == other.sources()
        &&& self.transforms() == other.transforms()
        &&& self.outputs() == other.outputs()
        &&& self.blocking() == other.blocking()
        &&& self.schedule() == other.schedule()
    }

    /// True during the start phase, when metrics and stages may be added.
    pub open spec fn starting(&self) -> bool {
        self.registry().is_open()
    }

    pub fn new() -> (r: Self)
        ensures
            r.wf(),
            r.starting(),
            r.registry().defs().len() == 0,
            r.sources().len() == 0,
            r.transforms().len() == 0,
            r.outputs().len() == 0,
            !r.schedule().is_stopping(),
    {
        Pipeline {
            metrics: MetricRegistry::new(),
            sources: Vec::new(),
            transforms: Vec::new(),
            outputs: Vec::new(),
            blocking: Vec::new(),
            scheduler: Scheduler::new(),
        }
    }

    pub fn metrics(&self) -> (r: &MetricRegistry)
        ensures
            *r == self.registry(),
    {
        &self.metrics
    }

    pub fn scheduler(&self) -> (r: &Scheduler)
        ensures
            *r == self.schedule(),
    {
        &self.scheduler
    }

    pub fn n_sources(&self) -> (r: usize)
        ensures
            r == self.sources().len(),
    {
        self.sources.len()
    }

    pub fn n_transforms(&self) -> (r: usize)
        ensures
            r == self.transforms().len(),
    {
        self.transforms.len()
    }

    pub fn n_outputs(&self) -> (r: usize)
        ensures
            r == self.outputs().len(),
    {
        self.outputs.len()
    }

    pub fn source(&self, i: usize) -> (r: &S)
        requires
            i < self.sources().len(),
        ensures
            *r == self.sources()[i as int],
    {
        &self.sources[i]
    }

    pub fn transform(&self, i: usize) -> (r: &T)
        requires
            i < self.transforms().len(),
        ensures
            *r == self.transforms()[i as int],
    {
        &self.transforms[i]
    }

    pub fn output(&self, i: usize) -> (r: &O)
        requires
            i < self.outputs().len(),
        ensures
            *r == self.outputs()[i as int],
    {
        &self.outputs[i]
    }

    /// Mutable access to an output, for the host to drain what it produced.
    pub fn output_mut(&mut self, i: usize) -> (r: &mut O)
        requires
            i < old(self).outputs().len(),
        ensures
            *r == old(self).outputs()[i as int],
            final(self).outputs() == old(self).outputs().update(i as int, *final(r)),
            final(self).sources() == old(self).sources(),
            final(self).transforms() == old(self).transforms(),
            final(self).registry() == old(self).registry(),
            final(self).schedule() == old(self).schedule(),
            final(self).blocking() == old(self).blocking(),
    {
        &mut self.outputs[i]
    }

    /// Mutable access to a source, for the host to hand it outside values.
    pub fn source_mut(&mut self, i: usize) -> (r: &mut S)
        requires
            i < old(self).sources().len(),
        ensures
            *r == old(self).sources()[i as int],
            final(self).sources() == old(self).sources().update(i as int, *final(r)),
            final(self).outputs() == old(self).outputs(),
            final(self).transforms() == old(self).transforms(),
            final(self).registry() == old(self).registry(),
            final(self).schedule() == old(self).schedule(),
            final(self).blocking() == old(self).blocking(),
    {
        &mut self.sources[i]
    }

    /// Registers a metric; see `MetricRegistry::create_metric`.
    pub fn create_metric(
        &mut self,
        name: &str,
        value_type: MetricType,
        unit: Unit,
        description: &str,
    ) -> (r: Result<TypedMetricId, MetricError>)
        requires
            old(self).wf(),
            old(self).registry().defs().len() + 1 < u64::MAX,
        ensures
            final(self).wf(),
            final(self).sources() == old(self).sources(),
            final(self).transforms() == old(self).transforms(),
            final(self).outputs() == old(self).outputs(),
            final(self).blocking() == old(self).blocking(),
            final(self).schedule() == old(self).schedule(),
            final(self).starting() == old(self).starting(),
            !old(self).starting() ==> r == Err::<TypedMetricId, MetricError>(
                MetricError::RegistrationClosed,
            ),
            old(self).starting() && has_name(old(self).registry().defs(), name@) ==> r == Err::<
                TypedMetricId,
                MetricError,
            >(MetricError::DuplicateName),
            r is Err ==> final(self).registry().defs() == old(self).registry().defs(),
            old(self).starting() && !has_name(old(self).registry().defs(), name@) ==> {
                let n = old(self).registry().defs().len();
                let d = final(self).registry().defs();
                &&& r == Ok::<TypedMetricId, MetricError>(
                    (TypedMetricId { id: RawMetricId { id: n as u64 }, value_type }),
                )
                &&& d.len() == n + 1
                &&& d.take(n as int) == old(self).registry().defs()
                &&& d.last().name@ == name@
                &&& d.last().value_type == value_type
                &&& d.last().unit == unit
                &&& d.last().description@ == description@
            },
    {
        self.metrics.create_metric(name, value_type, unit, description)
    }

    /// Adds a source, first polled one interval after `now`.
    pub fn add_source(&mut self, source: S, trigger: TriggerSpec, now: u64) -> (r: Result<
        usize,
        StageError,
    >)
        requires
            old(self).wf(),
        ensures
            final(self).wf(),
            final(self).blocking() == old(self).blocking(),
            final(self).registry() == old(self).registry(),
            final(self).transforms() == old(self).transforms(),
            final(self).outputs() == old(self).outputs(),
            !old(self).starting() ==> r == Err::<usize, StageError>(StageError::OutsideStartPhase)
                && final(self).sources() == old(self).sources() && final(self).schedule()
                == old(self).schedule(),
            final(self).schedule().is_stopping() == old(self).schedule().is_stopping(),
            old(self).starting() ==> r == Ok::<usize, StageError>(old(self).sources().len() as usize)
                && final(self).sources() == old(self).sources().push(source)
                && final(self).schedule()@ == old(self).schedule()@.push(
                TriggerState {
                    interval: trigger.interval_nanos,
                    next_due: sat_add(now, trigger.interval_nanos),
                    in_flight: false,
                    removed: old(self).schedule().is_stopping(),
                },
            ),
    {
        if !self.metrics.accepts_new_metrics() {
            return Err(StageError::OutsideStartPhase);
        }
        let i = self.sources.len();
        self.sources.push(source);
        self.scheduler.add(trigger, now);
        Ok(i)
    }

    /// Appends a transform to the chain.
    pub fn add_transform(&mut self, transform: T) -> (r: Result<usize, StageError>)
        requires
            old(self).wf(),
        ensures
            final(self).wf(),
            final(self).blocking() == old(self).blocking(),
            final(self).registry() == old(self).registry(),
            final(self).sources() == old(self).sources(),
            final(self).outputs() == old(self).outputs(),
            final(self).schedule() == old(self).schedule(),
            !old(self).starting() ==> r == Err::<usize, StageError>(StageError::OutsideStartPhase)
                && final(self).transforms() == old(self).transforms(),
            old(self).starting() ==> r == Ok::<usize, StageError>(
                old(self).transforms().len() as usize,
            ) && final(self).transforms() == old(self).transforms().push(transform),
    {
        if !self.metrics.accepts_new_metrics() {
            return Err(StageError::OutsideStartPhase);
        }
        let i = self.transforms.len();
        self.transforms.push(transform);
        Ok(i)
    }

    fn push_output(&mut self, output: O, blocking: bool) -> (r: Result<usize, StageError>)
        requires
            old(self).wf(),
        ensures
            final(self).wf(),
            final(self).registry() == old(self).registry(),
            final(self).sources() == old(self).sources(),
            final(self).transforms() == old(self).transforms(),
            final(self).schedule() == old(self).schedule(),
            !old(self).starting() ==> r == Err::<usize, StageError>(StageError::OutsideStartPhase)
                && final(self).outputs() == old(self).outputs() && final(self).blocking()
                == old(self).blocking(),
            old(self).starting() ==> r == Ok::<usize, StageError>(old(self).outputs().len() as usize)
                && final(self).outputs() == old(self).outputs().push(output)
                && final(self).blocking() == old(self).blocking().push(blocking),
    {
        if !self.metrics.accepts_new_metrics() {
            return Err(StageError::OutsideStartPhase);
        }
        let i = self.outputs.len();
        self.outputs.push(output);
        self.blocking.push(blocking);
        Ok(i)
    }

    /// Adds an output that is expected to return promptly.
    pub fn add_output(&mut self, output: O) -> (r: Result<usize, StageError>)
        requires
            old(self).wf(),
        ensures
            final(self).wf(),
            final(self).registry() == old(self).registry(),
            final(self).sources() == old(self).sources(),
            final(self).transforms() == old(self).transforms(),
            final(self).schedule() == old(self).schedule(),
            !old(self).starting() ==> r == Err::<usize, StageError>(StageError::OutsideStartPhase)
                && final(self).outputs() == old(self).outputs(),
            old(self).starting() ==> r == Ok::<usize, StageError>(old(self).outputs().len() as usize)
                && final(self).outputs() == old(self).outputs().push(output)
                && final(self).blocking() == old(self).blocking().push(false),
    {
        self.push_output(output, false)
    }

    /// Adds an output that runs on an execution context of its own.
    pub fn add_blocking_output(&mut self, output: O) -> (r: Result<usize, StageError>)
        requires
            old(self).wf(),
        ensures
            final(self).wf(),
            final(self).registry() == old(self).registry(),
            final(self).sources() == old(self).sources(),
            final(self).transforms() == old(self).transforms(),
            final(self).schedule() == old(self).schedule(),
            !old(self).starting() ==> r == Err::<usize, StageError>(StageError::OutsideStartPhase)
                && final(self).outputs() == old(self).outputs(),
            old(self).starting() ==> r == Ok::<usize, StageError>(old(self).outputs().len() as usize)
                && final(self).outputs() == old(self).outputs().push(output)
                && final(self).blocking() == old(self).blocking().push(true),
    {
        self.push_output(output, true)
    }

    /// Ends the start phase: no more metrics or stages are accepted.
    pub fn finish_start(&mut self)
        requires
            old(self).wf(),
        ensures
            final(self).wf(),
            !final(self).starting(),
            final(self).registry().defs() == old(self).registry().defs(),
            final(self).sources() == old(self).sources(),
            final(self).transforms() == old(self).transforms(),
            final(self).outputs() == old(self).outputs(),
            final(self).blocking() == old(self).blocking(),
            final(self).schedule() == old(self).schedule(),
    {
        self.metrics.close();
    }
}


impl<S: Source, T: Transform, O: Output> Pipeline<S, T, O> {
    /// The sources to poll at time `now`; see `Scheduler::due`.
    pub fn due_sources(&mut self, now: u64) -> (r: Vec<usize>)
        requires
            old(self).wf(),
        ensures
            final(self).wf(),
            final(self).registry() == old(self).registry(),
            final(self).sources() == old(self).sources(),
            final(self).transforms() == old(self).transforms(),
            final(self).outputs() == old(self).outputs(),
            final(self).blocking() == old(self).blocking(),
            distinct_in_range(r@, old(self).sources().len() as int),
            final(self).schedule().is_stopping() == old(self).schedule().is_stopping(),
            due_result(
                old(self).schedule()@,
                old(self).schedule().is_stopping(),
                now,
                r@,
                final(self).schedule()@,
            ),
    {
        let r = self.scheduler.due(now);
        r
    }

    /// The sources whose polls finished at time `now`; see `Scheduler::finish`.
    /// Returns, for each, whether its points are to be delivered.
    pub fn finish_polls(&mut self, fired: &Vec<usize>, now: u64) -> (r: Vec<bool>)
        requires
            old(self).wf(),
            distinct_in_range(fired@, old(self).sources().len() as int),
        ensures
            final(self).wf(),
            final(self).registry() == old(self).registry(),
            final(self).sources() == old(self).sources(),
            final(self).transforms() == old(self).transforms(),
            final(self).outputs() == old(self).outputs(),
            final(self).blocking() == old(self).blocking(),
            final(self).schedule().is_stopping() == old(self).schedule().is_stopping(),
            r@.len() == fired@.len(),
            final(self).schedule()@.len() == old(self).schedule()@.len(),
            forall|k: int|
                0 <= k < fired@.len() ==> #[trigger] r@[k] == old(self).schedule()@[fired@[k] as int].in_flight,
            forall|k: int|
                0 <= k < fired@.len() ==> #[trigger] final(self).schedule()@[fired@[k] as int] == if old(
                    self,
                ).schedule()@[fired@[k] as int].in_flight {
                    finished(
                        old(self).schedule()@[fired@[k] as int],
                        now,
                        old(self).schedule().is_stopping(),
                    )
                } else {
                    old(self).schedule()@[fired@[k] as int]
                },
            forall|i: int|
                0 <= i < old(self).schedule()@.len() && !fired@.contains(i as usize)
                    ==> #[trigger] final(self).schedule()@[i] == old(self).schedule()@[i],
    {
        let ghost before = self.schedule()@;
        let mut r: Vec<bool> = Vec::new();
        let mut k: usize = 0;
        while k < fired.len()
            invariant
                self.wf(),
                k <= fired@.len(),
                r@.len() == k,
                self.registry() == old(self).registry(),
                self.sources() == old(self).sources(),
                self.transforms() == old(self).transforms(),
                self.outputs() == old(self).outputs(),
                self.blocking() == old(self).blocking(),
                self.schedule().is_stopping() == old(self).schedule().is_stopping(),
                before == old(self).schedule()@,
                self.schedule()@.len() == before.len(),
                distinct_in_range(fired@, old(self).sources().len() as int),
                forall|j: int| 0 <= j < k ==> #[trigger] r@[j] == before[fired@[j] as int].in_flight,
                forall|j: int|
                    0 <= j < k ==> #[trigger] self.schedule()@[fired@[j] as int] == if before[fired@[j] as int].in_flight {
                        finished(before[fired@[j] as int], now, old(self).schedule().is_stopping())
                    } else {
                        before[fired@[j] as int]
                    },
                forall|i: int|
                    0 <= i < before.len() && !fired@.take(k as int).contains(i as usize)
                        ==> #[trigger] self.schedule()@[i] == before[i],
            decreases fired@.len() - k,
        {
            let idx = fired[k];
            proof {
                assert forall|j: int| 0 <= j < k implies fired@.take(k as int)[j] != idx by {
                    assert(fired@.take(k as int)[j] == fired@[j]);
                }
                assert(!fired@.take(k as int).contains(idx));
            }
            let ghost sched = self.schedule()@;
            let d = self.scheduler.finish(idx, now);
            r.push(d);
            proof {
                assert forall|j: int| 0 <= j < k + 1 implies #[trigger] r@[j] == before[fired@[j] as int].in_flight by {
                }
                assert forall|j: int| 0 <= j < k + 1 implies #[trigger] self.schedule()@[fired@[j] as int] == if before[fired@[j] as int].in_flight {
                        finished(before[fired@[j] as int], now, old(self).schedule().is_stopping())
                    } else {
                        before[fired@[j] as int]
                    } by {
                    if j < k {
                        assert(fired@[j] != idx);
                        assert(self.schedule()@[fired@[j] as int] == sched[fired@[j] as int]);
                    }
                }
                assert forall|i: int|
                    0 <= i < before.len() && !fired@.take(k + 1).contains(i as usize)
                        implies #[trigger] self.schedule()@[i] == before[i] by {
                    assert(fired@.take(k + 1)[k as int] == idx);
                    if fired@.take(k as int).contains(i as usize) {
                        let j = choose|j: int| 0 <= j < k && fired@.take(k as int)[j] == i as usize;
                        assert(fired@.take(k + 1)[j] == i as usize);
                    }
                    assert(self.schedule()@[i] == sched[i]);
                }
            }
            k = k + 1;
        }
        proof {
            assert(fired@.take(fired@.len() as int) =~= fired@);
        }
        r
    }

    /// Stops the pipeline's schedule; see `Scheduler::stop`.
    pub fn stop(&mut self)
        requires
            old(self).wf(),
        ensures
            final(self).wf(),
            final(self).registry() == old(self).registry(),
            final(self).sources() == old(self).sources(),
            final(self).transforms() == old(self).transforms(),
            final(self).outputs() == old(self).outputs(),
            final(self).blocking() == old(self).blocking(),
            final(self).schedule().is_stopping(),
            stop_result(old(self).schedule()@, final(self).schedule()@),
    {
        self.scheduler.stop();
    }

    /// Polls each fired source once, at time `t`, each into an accumulator of
    /// its own, and merges the points of the successful polls in firing order.
    /// A failed poll contributes nothing and does not stop the others.
    pub fn poll_sources(&mut self, fired: &Vec<usize>, t: Timestamp) -> (r: (
        MeasurementBuffer,
        Vec<Result<(), PollError>>,
    ))
        requires
            old(self).wf(),
            distinct_in_range(fired@, old(self).sources().len() as int),
            forall|k: int|
                0 <= k < fired@.len() ==> (#[trigger] old(self).sources()[fired@[k] as int]).can_poll(),
        ensures
            final(self).wf(),
            final(self).registry() == old(self).registry(),
            final(self).transforms() == old(self).transforms(),
            final(self).outputs() == old(self).outputs(),
            final(self).blocking() == old(self).blocking(),
            final(self).schedule() == old(self).schedule(),
            exists|pushed: Seq<Seq<MeasurementPoint>>|
                #[trigger] poll_trace(
                    old(self).sources(),
                    final(self).sources(),
                    fired@,
                    t,
                    r.1@,
                    r.0@,
                    pushed,
                ),
    {
        let mut buf = MeasurementBuffer::new();
        let mut results: Vec<Result<(), PollError>> = Vec::new();
        let ghost mut pushed: Seq<Seq<MeasurementPoint>> = Seq::empty();
        let mut k: usize = 0;
        while k < fired.len()
            invariant
                self.wf(),
                self.registry() == old(self).registry(),
                self.transforms() == old(self).transforms(),
                self.outputs() == old(self).outputs(),
                self.blocking() == old(self).blocking(),
                self.schedule() == old(self).schedule(),
                distinct_in_range(fired@, old(self).sources().len() as int),
                forall|j: int|
                    0 <= j < fired@.len() ==> (#[trigger] old(self).sources()[fired@[j] as int]).can_poll(),
                k <= fired@.len(),
                pushed.len() == k,
                results@.len() == k,
                self.sources().len() == old(self).sources().len(),
                forall|i: int|
                    0 <= i < old(self).sources().len() && !fired@.take(k as int).contains(i as usize)
                        ==> #[trigger] self.sources()[i] == old(self).sources()[i],
                forall|j: int|
                    0 <= j < k ==> S::polled(
                        old(self).sources()[#[trigger] fired@[j] as int],
                        self.sources()[fired@[j] as int],
                        t,
                        pushed[j],
                        results@[j] is Ok,
                    ),
                buf@ == concat_ok(pushed, results@),
                all_at(buf@, t),
            decreases fired@.len() - k,
        {
            let idx = fired[k];
            proof {
                assert forall|j: int| 0 <= j < k implies fired@.take(k as int)[j] != idx by {
                    assert(fired@.take(k as int)[j] == fired@[j]);
                }
                assert(!fired@.take(k as int).contains(idx));
            }
            let ghost src_before = self.sources()[idx as int];
            let mut acc = MeasurementAccumulator::new();
            let res = self.sources[idx].poll(&mut acc, t);
            let ghost got = acc@;
            proof {
                assert(acc@.skip(0) =~= acc@);
            }
            let ghost buf_before = buf@;
            if res.is_ok() {
                buf.merge(acc);
            }
            let ghost results_before = results@;
            results.push(res);
            proof {
                let new_pushed = pushed.push(got);
                assert(new_pushed.drop_last() =~= pushed);
                assert(results@.drop_last() =~= results_before);
                if res is Ok {
                    assert(buf@ =~= concat_ok(new_pushed, results@));
                } else {
                    assert(buf@ =~= concat_ok(new_pushed, results@));
                }
                assert forall|i: int| 0 <= i < buf@.len() implies (#[trigger] buf@[i]).timestamp == t by {
                    if i >= buf_before.len() {
                        assert(buf@[i] == got[i - buf_before.len()]);
                    }
                }
                assert forall|i: int|
                    0 <= i < old(self).sources().len() && !fired@.take(k + 1).contains(i as usize)
                        implies #[trigger] self.sources()[i] == old(self).sources()[i] by {
                    assert(fired@.take(k + 1)[k as int] == idx);
                    if fired@.take(k as int).contains(i as usize) {
                        let j = choose|j: int| 0 <= j < k && fired@.take(k as int)[j] == i as usize;
                        assert(fired@.take(k + 1)[j] == i as usize);
                    }
                }
                assert forall|j: int| 0 <= j < k + 1 implies S::polled(
                        old(self).sources()[#[trigger] fired@[j] as int],
                        self.sources()[fired@[j] as int],
                        t,
                        new_pushed[j],
                        results@[j] is Ok,
                    ) by {
                    if j < k {
                        assert(fired@[j] != idx);
                    }
                }
                pushed = new_pushed;
            }
            k = k + 1;
        }
        proof {
            assert(fired@.take(fired@.len() as int) =~= fired@);
            assert(poll_trace(old(self).sources(), self.sources(), fired@, t, results@, buf@, pushed));
        }
        let r = (buf, results);
        assert(poll_trace(old(self).sources(), self.sources(), fired@, t, r.1@, r.0@, pushed));
        r
    }

    /// Runs every transform once over `buf`, in registration order.
    pub fn run_transforms(&mut self, buf: &mut MeasurementBuffer) -> (r: Vec<
        Result<(), TransformError>,
    >)
        requires
            old(self).wf(),
        ensures
            final(self).wf(),
            final(self).registry() == old(self).registry(),
            final(self).sources() == old(self).sources(),
            final(self).outputs() == old(self).outputs(),
            final(self).blocking() == old(self).blocking(),
            final(self).schedule() == old(self).schedule(),
            extends(old(buf)@, final(buf)@),
            exists|bufs: Seq<Seq<MeasurementPoint>>|
                #[trigger] transform_chain(
                    old(self).transforms(),
                    final(self).transforms(),
                    old(buf)@,
                    final(buf)@,
                    r@,
                    bufs,
                ),
    {
        let mut results: Vec<Result<(), TransformError>> = Vec::new();
        let ghost mut bufs: Seq<Seq<MeasurementPoint>> = seq![buf@];
        let n = self.transforms.len();
        let mut i: usize = 0;
        assert(buf@.take(buf@.len() as int) =~= buf@);
        while i < n
            invariant
                self.wf(),
                self.registry() == old(self).registry(),
                self.sources() == old(self).sources(),
                self.outputs() == old(self).outputs(),
                self.blocking() == old(self).blocking(),
                self.schedule() == old(self).schedule(),
                n == old(self).transforms().len(),
                self.transforms().len() == n,
                i <= n,
                results@.len() == i,
                bufs.len() == i + 1,
                bufs[0] == old(buf)@,
                bufs.last() == buf@,
                extends(old(buf)@, buf@),
                forall|j: int| i <= j < n ==> #[trigger] self.transforms()[j] == old(self).transforms()[j],
                forall|j: int|
                    0 <= j < i ==> T::applied(
                        #[trigger] old(self).transforms()[j],
                        self.transforms()[j],
                        bufs[j],
                        bufs[j + 1],
                        results@[j],
                    ),
            decreases n - i,
        {
            let ghost before = buf@;
            let ghost ts = self.transforms();
            let res = self.transforms[i].apply(buf, &self.metrics);
            results.push(res);
            proof {
                let nb = bufs.push(buf@);
                assert forall|j: int| 0 <= j < i + 1 implies T::applied(
                        #[trigger] old(self).transforms()[j],
                        self.transforms()[j],
                        nb[j],
                        nb[j + 1],
                        results@[j],
                    ) by {
                    if j < i {
                        assert(self.transforms()[j] == ts[j]);
                    }
                }
                assert(old(buf)@.len() <= buf@.len());
                assert(buf@.take(old(buf)@.len() as int) =~= old(buf)@) by {
                    assert(buf@.take(before.len() as int) == before);
                    assert(before.take(old(buf)@.len() as int) == old(buf)@);
                }
                bufs = nb;
            }
            i = i + 1;
        }
        proof {
            assert(transform_chain(old(self).transforms(), self.transforms(), old(buf)@, buf@, results@, bufs));
        }
        results
    }

    /// Hands `buf` to every output once, in registration order, with the
    /// host's texts of its points. A failing output does not keep the others
    /// from writing.
    pub fn run_outputs(&mut self, buf: &MeasurementBuffer, texts: &Vec<PointText>) -> (r: Vec<
        Result<(), WriteError>,
    >)
        requires
            old(self).wf(),
            texts@.len() == buf@.len(),
        ensures
            final(self).wf(),
            final(self).registry() == old(self).registry(),
            final(self).sources() == old(self).sources(),
            final(self).transforms() == old(self).transforms(),
            final(self).blocking() == old(self).blocking(),
            final(self).schedule() == old(self).schedule(),
            outputs_wrote(
                old(self).outputs(),
                final(self).outputs(),
                buf@,
                old(self).registry().defs(),
                texts@,
                r@,
            ),
    {
        let mut results: Vec<Result<(), WriteError>> = Vec::new();
        let n = self.outputs.len();
        let mut i: usize = 0;
        while i < n
            invariant
                self.wf(),
                self.registry() == old(self).registry(),
                self.sources() == old(self).sources(),
                self.transforms() == old(self).transforms(),
                self.blocking() == old(self).blocking(),
                self.schedule() == old(self).schedule(),
                texts@.len() == buf@.len(),
                n == old(self).outputs().len(),
                self.outputs().len() == n,
                i <= n,
                results@.len() == i,
                forall|j: int| i <= j < n ==> #[trigger] self.outputs()[j] == old(self).outputs()[j],
                forall|j: int|
                    0 <= j < i ==> O::wrote(
                        #[trigger] old(self).outputs()[j],
                        self.outputs()[j],
                        buf@,
                        old(self).registry().defs(),
                        texts@,
                        results@[j],
                    ),
            decreases n - i,
        {
            let ghost os = self.outputs();
            let res = self.outputs[i].write(buf, &self.metrics, texts);
            results.push(res);
            proof {
                assert forall|j: int| 0 <= j < i + 1 implies O::wrote(
                        #[trigger] old(self).outputs()[j],
                        self.outputs()[j],
                        buf@,
                        old(self).registry().defs(),
                        texts@,
                        results@[j],
                    ) by {
                    if j < i {
                        assert(self.outputs()[j] == os[j]);
                    }
                }
            }
            i = i + 1;
        }
        results
    }

    /// Runs one tick at time `t` for the fired sources: poll, merge, then the
    /// transform chain; the host then renders the texts of the final buffer
    /// and hands both to `deliver`. A tick that fires no source does nothing.
    /// Only sources whose poll the scheduler issued (in flight) are polled,
    /// so a dropped source never is.
    pub fn tick(&mut self, fired: &Vec<usize>, t: Timestamp) -> (r: TickReport)
        requires
            old(self).wf(),
            distinct_in_range(fired@, old(self).sources().len() as int),
            forall|k: int|
                0 <= k < fired@.len() ==> (#[trigger] old(self).schedule()@[fired@[k] as int]).in_flight,
            forall|k: int|
                0 <= k < fired@.len() ==> (#[trigger] old(self).sources()[fired@[k] as int]).can_poll(),
        ensures
            final(self).wf(),
            final(self).registry() == old(self).registry(),
            final(self).blocking() == old(self).blocking(),
            final(self).schedule() == old(self).schedule(),
            final(self).outputs() == old(self).outputs(),
            r.poll_results@.len() == fired@.len(),
            fired@.len() == 0 ==> {
                &&& final(self).sources() == old(self).sources()
                &&& final(self).transforms() == old(self).transforms()
                &&& r.transform_results@.len() == 0
                &&& r.delivered@.len() == 0
            },
            fired@.len() > 0 ==> exists|pushed: Seq<Seq<MeasurementPoint>>, bufs: Seq<Seq<MeasurementPoint>>|
                #[trigger] tick_trace(
                    old(self).sources(),
                    final(self).sources(),
                    old(self).transforms(),
                    final(self).transforms(),
                    fired@,
                    t,
                    r,
                    pushed,
                    bufs,
                ),
    {
        if fired.len() == 0 {
            return TickReport {
                poll_results: Vec::new(),
                transform_results: Vec::new(),
                delivered: MeasurementBuffer::new(),
            };
        }
        let (mut buf, poll_results) = self.poll_sources(fired, t);
        let ghost merged = buf@;
        let ghost pushed = choose|pushed: Seq<Seq<MeasurementPoint>>| #[trigger] poll_trace(
            old(self).sources(), self.sources(), fired@, t, poll_results@, merged, pushed);
        let ghost mid_transforms = self.transforms();
        let transform_results = self.run_transforms(&mut buf);
        let ghost bufs = choose|bufs: Seq<Seq<MeasurementPoint>>| #[trigger] transform_chain(
            mid_transforms, self.transforms(), merged, buf@, transform_results@, bufs);
        let r = TickReport { poll_results, transform_results, delivered: buf };
        assert(tick_trace(
            old(self).sources(),
            self.sources(),
            old(self).transforms(),
            self.transforms(),
            fired@,
            t,
            r,
            pushed,
            bufs,
        ));
        r
    }

    /// Hands the final buffer of a tick to every output, with the host's
    /// texts of its points. After a tick that fired no source no output runs.
    pub fn deliver(&mut self, report: &TickReport, texts: &Vec<PointText>) -> (r: Vec<
        Result<(), WriteError>,
    >)
        requires
            old(self).wf(),
            texts@.len() == report.delivered@.len(),
        ensures
            final(self).wf(),
            final(self).registry() == old(self).registry(),
            final(self).sources() == old(self).sources(),
            final(self).transforms() == old(self).transforms(),
            final(self).blocking() == old(self).blocking(),
            final(self).schedule() == old(self).schedule(),
            report.poll_results@.len() == 0 ==> r@.len() == 0 && final(self).outputs() == old(
                self,
            ).outputs(),
            report.poll_results@.len() > 0 ==> outputs_wrote(
                old(self).outputs(),
                final(self).outputs(),
                report.delivered@,
                old(self).registry().defs(),
                texts@,
                r@,
            ),
    {
        if report.poll_results.len() == 0 {
            return Vec::new();
        }
        self.run_outputs(&report.delivered, texts)
    }
}

/// One tick: the polls gave `bufs[0]` and the transform chain turned it into
/// the delivered buffer.
pub open spec fn tick_trace<S: Source, T: Transform>(
    sources_before: Seq<S>,
    sources_after: Seq<S>,
    transforms_before: Seq<T>,
    transforms_after: Seq<T>,
    fired: Seq<usize>,
    t: Timestamp,
    r: TickReport,
    pushed: Seq<Seq<MeasurementPoint>>,
    bufs: Seq<Seq<MeasurementPoint>>,
) -> bool {
    &&& bufs.len() >= 1
    &&& poll_trace(sources_before, sources_after, fired, t, r.poll_results@, bufs[0], pushed)
    &&& transform_chain(
        transforms_before,
        transforms_after,
        bufs[0],
        r.delivered@,
        r.transform_results@,
        bufs,
    )
    &&& extends(bufs[0], r.delivered@)
}

/// A failed poll leaves the tick's points as if that source had succeeded
/// with nothing: every other source's points reach the transforms as they
/// would have.
pub proof fn lemma_failed_poll_isolated(
    pushed: Seq<Seq<MeasurementPoint>>,
    results: Seq<Result<(), PollError>>,
    k: int,
)
    requires
        pushed.len() == results.len(),
        0 <= k < pushed.len(),
        results[k] is Err,
    ensures
        concat_ok(pushed, results) == concat_ok(
            pushed.update(k, Seq::<MeasurementPoint>::empty()),
            results.update(k, Ok::<(), PollError>(())),
        ),
    decreases pushed.len(),
{
    let p2 = pushed.update(k, Seq::<MeasurementPoint>::empty());
    let r2 = results.update(k, Ok::<(), PollError>(()));
    let n = pushed.len() - 1;
    if k == n {
        assert(p2.drop_last() =~= pushed.drop_last());
        assert(r2.drop_last() =~= results.drop_last());
        assert(concat_ok(p2, r2) =~= concat_ok(pushed, results));
    } else {
        lemma_failed_poll_isolated(pushed.drop_last(), results.drop_last(), k);
        assert(p2.drop_last() =~= pushed.drop_last().update(k, Seq::<MeasurementPoint>::empty()));
        assert(r2.drop_last() =~= results.drop_last().update(k, Ok::<(), PollError>(())));
    }
}

/// Each transform after the first sees exactly what the one registered before
/// it left in the buffer at the same tick, which holds every point of the
/// tick's earlier stages.
pub proof fn lemma_transform_sees_predecessor<T: Transform>(
    before: Seq<T>,
    after: Seq<T>,
    input: Seq<MeasurementPoint>,
    output: Seq<MeasurementPoint>,
    results: Seq<Result<(), TransformError>>,
    bufs: Seq<Seq<MeasurementPoint>>,
    i: int,
)
    requires
        transform_chain(before, after, input, output, results, bufs),
        0 < i < before.len(),
    ensures
        T::applied(before[i - 1], after[i - 1], bufs[i - 1], bufs[i], results[i - 1]),
        T::applied(before[i], after[i], bufs[i], bufs[i + 1], results[i]),
{
    assert(T::applied(before[i - 1], after[i - 1], bufs[i - 1], bufs[i], results[i - 1]));
    assert(T::applied(before[i], after[i], bufs[i], bufs[i + 1], results[i]));
}

} // verus!
