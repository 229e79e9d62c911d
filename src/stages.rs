use vstd::prelude::*;
use crate::measurement::{MeasurementAccumulator, MeasurementBuffer, MeasurementPoint, Timestamp};
use crate::metrics::{MetricDefinition, MetricRegistry, RawMetricId};
use crate::text::PointText;

verus! {

/// Why a source could not produce its points at a tick.
#[derive(Clone, Copy, Debug, PartialEq, Eq, Structural)]
pub enum PollError {
    /// The value kind of a point differs from its metric's declared kind.
    TypeMismatch,
    /// The source has no value to report this tick.
    NoData,
}

/// Why a transform failed at a tick.
#[derive(Clone, Copy, Debug, PartialEq, Eq, Structural)]
pub enum TransformError {
    /// A point of the metric carries a value of the wrong kind: a bug in the
    /// stage that produced it. This is a failed defensive check, not an
    /// ordinary runtime error: the transform cannot stop the process itself,
    /// so it leaves its state and the buffer untouched and reports the bug
    /// here, for the host to treat as unrecoverable.
    UnexpectedValueType { metric: RawMetricId },
    /// A derived point would not match its metric's declared kind.
    TypeMismatch,
}

/// Why an output failed at a tick.
#[derive(Clone, Copy, Debug, PartialEq, Eq, Structural)]
pub enum WriteError {
    /// A point refers to a metric that the registry does not know.
    UnregisteredMetric { id: u64 },
}

/// True when `after` is `before` followed by some points.
pub open spec fn extends(before: Seq<MeasurementPoint>, after: Seq<MeasurementPoint>) -> bool {
    before.len() <= after.len() && after.take(before.len() as int) == before
}

/// A stage that produces points when its trigger fires.
pub trait Source: Sized {
    /// True when the source can be polled (its state has room for one more poll).
    spec fn can_poll(&self) -> bool;

    /// How one poll relates the source's state before and after, the tick
    /// time, the points it pushed and whether it succeeded.
    spec fn polled(
        before: Self,
        after: Self,
        t: Timestamp,
        pushed: Seq<MeasurementPoint>,
        ok: bool,
    ) -> bool;

    /// Pushes the points of one tick, each tagged with the tick time `t`.
    fn poll(&mut self, acc: &mut MeasurementAccumulator, t: Timestamp) -> (r: Result<(), PollError>)
        requires
            old(self).can_poll(),
        ensures
            extends(old(acc)@, final(acc)@),
            forall|i: int|
                old(acc)@.len() <= i < final(acc)@.len() ==> (#[trigger] final(acc)@[i]).timestamp
                    == t,
            Self::polled(
                *old(self),
                *final(self),
                t,
                final(acc)@.skip(old(acc)@.len() as int),
                r is Ok,
            ),
    ;
}

/// A stage that reads the whole buffer of a tick and may append derived points.
pub trait Transform: Sized {
    /// How one application relates the transform's state before and after,
    /// the buffer before and after, and the outcome.
    spec fn applied(
        before: Self,
        after: Self,
        input: Seq<MeasurementPoint>,
        output: Seq<MeasurementPoint>,
        r: Result<(), TransformError>,
    ) -> bool;

    /// Existing points are never changed: the buffer only grows.
    fn apply(&mut self, buf: &mut MeasurementBuffer, metrics: &MetricRegistry) -> (r: Result<
        (),
        TransformError,
    >)
        ensures
            extends(old(buf)@, final(buf)@),
            Self::applied(*old(self), *final(self), old(buf)@, final(buf)@, r),
    ;
}

/// A stage that consumes the final buffer of a tick, read-only. `texts[i]`
/// holds the host's renderings of the time and value of point `i`.
pub trait Output: Sized {
    /// How one write relates the output's state before and after, the buffer,
    /// the registered metrics, the host's texts and the outcome.
    spec fn wrote(
        before: Self,
        after: Self,
        input: Seq<MeasurementPoint>,
        defs: Seq<MetricDefinition>,
        texts: Seq<PointText>,
        r: Result<(), WriteError>,
    ) -> bool;

    fn write(
        &mut self,
        buf: &MeasurementBuffer,
        metrics: &MetricRegistry,
        texts: &Vec<PointText>,
    ) -> (r: Result<(), WriteError>)
        requires
            texts@.len() == buf@.len(),
        ensures
            Self::wrote(*old(self), *final(self), buf@, metrics.defs(), texts@, r),
    ;
}

} // verus!
