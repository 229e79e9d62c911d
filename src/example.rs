use vstd::prelude::*;
use crate::measurement::{
    AttributeValue, MeasurementAccumulator, MeasurementBuffer, MeasurementPoint, Timestamp,
    WrappedValue,
};
use crate::metrics::{MetricDefinition, MetricRegistry, MetricType, RawMetricId, TypedMetricId};
use crate::resources::{Resource, ResourceConsumer};
use crate::stages::{Output, PollError, Source, Transform, TransformError, WriteError};
use crate::text::{line_text, render_line, PointText};

verus! {

/// True when `p` is a point of the local machine without attributes.
pub open spec fn plain_point(
    p: MeasurementPoint,
    t: Timestamp,
    metric: RawMetricId,
    value: WrappedValue,
) -> bool {
    &&& p.timestamp == t
    &&& p.metric == metric
    &&& p.resource == Resource::LocalMachine
    &&& p.consumer == ResourceConsumer::LocalMachine
    &&& p.value == value
    &&& p.attrs().len() == 0
}

/// A source that reports how many times it has been polled before.
pub struct ExampleSource {
    pub metric: TypedMetricId,
    pub counter: u64,
}

impl ExampleSource {
    pub fn new(metric: TypedMetricId) -> (r: ExampleSource)
        ensures
            r.metric == metric,
            r.counter == 0,
    {
        ExampleSource { metric, counter: 0 }
    }
}

impl Source for ExampleSource {
    open spec fn can_poll(&self) -> bool {
        self.counter < u64::MAX
    }

    open spec fn polled(
        before: Self,
        after: Self,
        t: Timestamp,
        pushed: Seq<MeasurementPoint>,
        ok: bool,
    ) -> bool {
        if before.metric.value_type != MetricType::U64 {
            !ok && after == before && pushed.len() == 0
        } else {
            &&& ok
            &&& after == ExampleSource { metric: before.metric, counter: (before.counter + 1) as u64 }
            &&& pushed.len() == 1
            &&& plain_point(pushed[0], t, before.metric.id, WrappedValue::U64(before.counter))
        }
    }

    fn poll(&mut self, acc: &mut MeasurementAccumulator, t: Timestamp) -> (r: Result<(), PollError>) {
        let n_calls = self.counter;
        let point = match MeasurementPoint::new(
            t,
            self.metric,
            Resource::LocalMachine,
            ResourceConsumer::LocalMachine,
            WrappedValue::U64(n_calls),
        ) {
            Ok(p) => p,
            Err(_) => {
                assert(final(acc)@.skip(old(acc)@.len() as int) =~= Seq::<MeasurementPoint>::empty());
                assert(final(acc)@.take(old(acc)@.len() as int) =~= old(acc)@);
                return Err(PollError::TypeMismatch);
            },
        };
        self.counter = n_calls + 1;
        acc.push(point);
        proof {
            assert(final(acc)@.take(old(acc)@.len() as int) =~= old(acc)@);
            assert(final(acc)@.skip(old(acc)@.len() as int) =~= seq![point]);
        }
        Ok(())
    }
}

/// The value of the last point of metric `id` in `s`, with that point.
pub open spec fn latest_point(s: Seq<MeasurementPoint>, id: RawMetricId) -> Option<
    MeasurementPoint,
>
    decreases s.len(),
{
    if s.len() == 0 {
        None
    } else if s.last().metric == id {
        Some(s.last())
    } else {
        latest_point(s.drop_last(), id)
    }
}

/// True when every point of metric `id` in `s` carries an unsigned value.
pub open spec fn all_u64_for(s: Seq<MeasurementPoint>, id: RawMetricId) -> bool {
    forall|i: int| 0 <= i < s.len() && (#[trigger] s[i]).metric == id ==> s[i].value is U64
}

/// A transform that derives, for a counter metric, the difference between its
/// latest value and the one seen at the previous tick that carried it.
pub struct ExampleTransform {
    pub counter_metric: RawMetricId,
    pub previous_counter: Option<u64>,
    pub diff_metric: TypedMetricId,
}

impl ExampleTransform {
    pub fn new(counter_metric: RawMetricId, diff_metric: TypedMetricId) -> (r: ExampleTransform)
        ensures
            r.counter_metric == counter_metric,
            r.previous_counter is None,
            r.diff_metric == diff_metric,
    {
        ExampleTransform { counter_metric, previous_counter: None, diff_metric }
    }
}

/// What one application of the difference transform does.
///
/// With no earlier value, or no counter point this tick, no point is derived;
/// a counter that went backwards (a reset) yields no difference either.
/// A counter point with a floating-point value is a bug of the stage that
/// produced it: instead of stopping, the transform returns
/// `UnexpectedValueType` and changes nothing, and the host treats that error
/// as unrecoverable.
pub open spec fn diff_applied(
    before: ExampleTransform,
    after: ExampleTransform,
    input: Seq<MeasurementPoint>,
    output: Seq<MeasurementPoint>,
    r: Result<(), TransformError>,
) -> bool {
    if before.diff_metric.value_type != MetricType::U64 {
        r == Err::<(), TransformError>(TransformError::TypeMismatch) && after == before && output
            == input
    } else if !all_u64_for(input, before.counter_metric) {
        &&& r == Err::<(), TransformError>(
            TransformError::UnexpectedValueType { metric: before.counter_metric },
        )
        &&& after == before
        &&& output == input
    } else {
        match latest_point(input, before.counter_metric) {
            None => r is Ok && after == before && output == input,
            Some(p) => {
                let v = p.value->U64_0;
                &&& r is Ok
                &&& after == ExampleTransform {
                    counter_metric: before.counter_metric,
                    previous_counter: Some(v),
                    diff_metric: before.diff_metric,
                }
                &&& match before.previous_counter {
                    Some(prev) => if prev <= v {
                        &&& output.len() == input.len() + 1
                        &&& output.take(input.len() as int) == input
                        &&& plain_point(
                            output.last(),
                            p.timestamp,
                            before.diff_metric.id,
                            WrappedValue::U64((v - prev) as u64),
                        )
                    } else {
                        output == input
                    },
                    None => output == input,
                }
            },
        }
    }
}

impl Transform for ExampleTransform {
    open spec fn applied(
        before: Self,
        after: Self,
        input: Seq<MeasurementPoint>,
        output: Seq<MeasurementPoint>,
        r: Result<(), TransformError>,
    ) -> bool {
        diff_applied(before, after, input, output, r)
    }

    fn apply(&mut self, buf: &mut MeasurementBuffer, metrics: &MetricRegistry) -> (r: Result<
        (),
        TransformError,
    >) {
        if self.diff_metric.value_type != MetricType::U64 {
            assert(final(buf)@.take(old(buf)@.len() as int) =~= old(buf)@);
            return Err(TransformError::TypeMismatch);
        }
        let ghost s = buf@;
        let n = buf.len();
        let mut latest: Option<(u64, Timestamp)> = None;
        let mut i: usize = 0;
        while i < n
            invariant
                n == s.len(),
                buf@ == s,
                s == old(buf)@,
                *self == *old(self),
                self.diff_metric.value_type == MetricType::U64,
                i <= n,
                all_u64_for(s.take(i as int), self.counter_metric),
                match latest {
                    None => latest_point(s.take(i as int), self.counter_metric) is None,
                    Some((c, ts)) => latest_point(s.take(i as int), self.counter_metric) matches Some(
                        p,
                    ) && p.value == WrappedValue::U64(c) && p.timestamp == ts,
                },
            decreases n - i,
        {
            let m = buf.get(i);
            proof {
                assert(s.take(i + 1).drop_last() =~= s.take(i as int));
                assert(s.take(i + 1).last() == s[i as int]);
            }
            if m.metric == self.counter_metric {
                match m.value {
                    WrappedValue::F64Bits(_) => {
                        proof {
                            assert(s[i as int].metric == self.counter_metric);
                            assert(!(s[i as int].value is U64));
                            assert(!all_u64_for(s, self.counter_metric));
                            assert(!all_u64_for(old(buf)@, old(self).counter_metric));
                            assert(*final(self) == *old(self));
                            assert(final(buf)@.take(old(buf)@.len() as int) =~= old(buf)@);
                        }
                        return Err(TransformError::UnexpectedValueType { metric: self.counter_metric });
                    },
                    WrappedValue::U64(c) => {
                        latest = Some((c, m.timestamp));
                    },
                }
            }
            proof {
                assert forall|k: int|
                    0 <= k < i + 1 && (#[trigger] s.take(i + 1)[k]).metric
                        == self.counter_metric implies s.take(i + 1)[k].value is U64 by {
                    if k < i {
                        assert(s.take(i + 1)[k] == s.take(i as int)[k]);
                    }
                }
            }
            i = i + 1;
        }
        proof {
            assert(s.take(n as int) =~= s);
        }
        if let Some((latest_value, t)) = latest {
            if let Some(previous) = self.previous_counter {
                if previous <= latest_value {
                    let diff = latest_value - previous;
                    let point = MeasurementPoint::new(
                        t,
                        self.diff_metric,
                        Resource::LocalMachine,
                        ResourceConsumer::LocalMachine,
                        WrappedValue::U64(diff),
                    );
                    match point {
                        Ok(p) => buf.push(p),
                        Err(_) => {},
                    }
                }
            }
            self.previous_counter = Some(latest_value);
        }
        proof {
            assert(final(buf)@.take(old(buf)@.len() as int) =~= old(buf)@);
        }
        Ok(())
    }
}

/// True when the point's metric is registered.
pub open spec fn resolvable(p: MeasurementPoint, defs: Seq<MetricDefinition>) -> bool {
    p.metric.id < defs.len()
}

/// True when `after` is `before` followed by the lines of the first `k` points.
pub open spec fn lines_appended(
    before: Seq<String>,
    after: Seq<String>,
    input: Seq<MeasurementPoint>,
    defs: Seq<MetricDefinition>,
    texts: Seq<PointText>,
    k: int,
) -> bool {
    &&& after.len() == before.len() + k
    &&& after.take(before.len() as int) == before
    &&& forall|j: int|
        0 <= j < k ==> (#[trigger] after[before.len() + j])@ == line_text(
            input[j],
            defs[input[j].metric.id as int].name@,
            texts[j],
        )
}

/// An output that renders each point as one text line.
pub struct ExampleOutput {
    pub lines: Vec<String>,
}

impl ExampleOutput {
    pub fn new() -> (r: ExampleOutput)
        ensures
            r.lines@.len() == 0,
    {
        ExampleOutput { lines: Vec::new() }
    }

    /// Hands out the lines rendered so far and forgets them.
    pub fn take_lines(&mut self) -> (r: Vec<String>)
        ensures
            r@ == old(self).lines@,
            final(self).lines@.len() == 0,
    {
        let mut out = Vec::new();
        std::mem::swap(&mut out, &mut self.lines);
        out
    }
}

/// What one write of the text output does: the points are rendered in order
/// until the first one whose metric is unknown, which is reported instead.
pub open spec fn text_written(
    before: ExampleOutput,
    after: ExampleOutput,
    input: Seq<MeasurementPoint>,
    defs: Seq<MetricDefinition>,
    texts: Seq<PointText>,
    r: Result<(), WriteError>,
) -> bool {
    exists|k: int| #[trigger] written_upto(before, after, input, defs, texts, r, k)
}

/// `text_written` with the number `k` of rendered points made explicit.
pub open spec fn written_upto(
    before: ExampleOutput,
    after: ExampleOutput,
    input: Seq<MeasurementPoint>,
    defs: Seq<MetricDefinition>,
    texts: Seq<PointText>,
    r: Result<(), WriteError>,
    k: int,
) -> bool {
            &&& 0 <= k <= input.len()
            &&& forall|j: int| 0 <= j < k ==> resolvable(#[trigger] input[j], defs)
            &&& k < input.len() ==> !resolvable(input[k], defs)
            &&& lines_appended(before.lines@, after.lines@, input, defs, texts, k)
            &&& r == if k == input.len() {
                Ok::<(), WriteError>(())
            } else {
                Err::<(), WriteError>(WriteError::UnregisteredMetric { id: input[k].metric.id })
            }
}

impl Output for ExampleOutput {
    open spec fn wrote(
        before: Self,
        after: Self,
        input: Seq<MeasurementPoint>,
        defs: Seq<MetricDefinition>,
        texts: Seq<PointText>,
        r: Result<(), WriteError>,
    ) -> bool {
        text_written(before, after, input, defs, texts, r)
    }

    fn write(
        &mut self,
        buf: &MeasurementBuffer,
        metrics: &MetricRegistry,
        texts: &Vec<PointText>,
    ) -> (r: Result<(), WriteError>) {
        let ghost input = buf@;
        let ghost defs = metrics.defs();
        let names = resolve_names(buf, metrics);
        let (mut lines, r) = render_until_unresolved(buf, &names, texts);
        let ghost start = self.lines@;
        let ghost rendered = lines@;
        let k = lines.len();
        self.lines.append(&mut lines);
        proof {
            assert(k <= input.len());
            assert(self.lines@ == start + rendered);
            assert(self.lines@.take(start.len() as int) =~= start);
            assert forall|j: int| 0 <= j < k implies resolvable(#[trigger] input[j], defs) by {
                assert(names@[j] is Some);
            }
            assert forall|j: int| 0 <= j < k implies (#[trigger] self.lines@[start.len() + j])@
                == line_text(input[j], defs[input[j].metric.id as int].name@, texts@[j]) by {
                assert(self.lines@[start.len() + j] == rendered[j]);
                assert(names@[j] is Some);
                assert(rendered[j]@ == line_text(input[j], names@[j]->Some_0@, texts@[j]));
            }
            if k < input.len() {
                assert(names@[k as int] is None);
            }
            assert(written_upto(*old(self), *self, input, defs, texts@, r, k as int));
        }
        r
    }
}

/// The name of each point's metric, or `None` where the registry does not know it.
pub fn resolve_names(buf: &MeasurementBuffer, metrics: &MetricRegistry) -> (r: Vec<Option<String>>)
    ensures
        r@.len() == buf@.len(),
        forall|j: int|
            0 <= j < buf@.len() ==> ((#[trigger] r@[j]) is Some <==> resolvable(buf@[j], metrics.defs())),
        forall|j: int|
            0 <= j < buf@.len() && (#[trigger] r@[j]) is Some ==> r@[j]->Some_0@ == metrics.defs()[buf@[j].metric.id as int].name@,
{
    let mut r: Vec<Option<String>> = Vec::new();
    let n = buf.len();
    let mut i: usize = 0;
    while i < n
        invariant
            n == buf@.len(),
            i <= n,
            r@.len() == i,
            forall|j: int|
                0 <= j < i ==> ((#[trigger] r@[j]) is Some <==> resolvable(buf@[j], metrics.defs())),
            forall|j: int|
                0 <= j < i && (#[trigger] r@[j]) is Some ==> r@[j]->Some_0@ == metrics.defs()[buf@[j].metric.id as int].name@,
        decreases n - i,
    {
        let m = buf.get(i);
        match metrics.resolve(m.metric) {
            Ok(def) => r.push(Some(def.name.clone())),
            Err(_) => r.push(None),
        }
        i = i + 1;
    }
    r
}

/// Renders one line per point, in order, until the first point whose metric
/// has no name; that point is reported as unregistered. `names[i]` is the name
/// of the metric of point `i`, as the host's registry resolved it.
pub fn render_until_unresolved(
    buf: &MeasurementBuffer,
    names: &Vec<Option<String>>,
    texts: &Vec<PointText>,
) -> (r: (Vec<String>, Result<(), WriteError>))
    requires
        names@.len() == buf@.len(),
        texts@.len() == buf@.len(),
    ensures
        r.0@.len() <= buf@.len(),
        forall|j: int|
            0 <= j < r.0@.len() ==> (#[trigger] names@[j]) is Some && r.0@[j]@ == line_text(
                buf@[j],
                names@[j]->Some_0@,
                texts@[j],
            ),
        r.0@.len() < buf@.len() ==> names@[r.0@.len() as int] is None && r.1 == Err::<(), WriteError>(
            WriteError::UnregisteredMetric { id: buf@[r.0@.len() as int].metric.id },
        ),
        r.0@.len() == buf@.len() ==> r.1 == Ok::<(), WriteError>(()),
{
    let mut lines: Vec<String> = Vec::new();
    let n = buf.len();
    let mut i: usize = 0;
    while i < n
        invariant
            n == buf@.len(),
            names@.len() == n,
            texts@.len() == n,
            i <= n,
            lines@.len() == i,
            forall|j: int|
                0 <= j < i ==> (#[trigger] names@[j]) is Some && lines@[j]@ == line_text(
                    buf@[j],
                    names@[j]->Some_0@,
                    texts@[j],
                ),
        decreases n - i,
    {
        let m = buf.get(i);
        match &names[i] {
            Some(name) => {
                let line = render_line(m, name, &texts[i]);
                lines.push(line);
            },
            None => {
                let id = m.metric.as_u64();
                return (lines, Err(WriteError::UnregisteredMetric { id }));
            },
        }
        i = i + 1;
    }
    (lines, Ok(()))
}

/// A source that reports a value handed to it from outside (a random number
/// read by the host), with half of it as the attribute `double`.
pub struct MyPluginSource {
    pub byte_metric: TypedMetricId,
    pub pending: Option<u64>,
}

impl MyPluginSource {
    pub fn new(byte_metric: TypedMetricId) -> (r: MyPluginSource)
        ensures
            r.byte_metric == byte_metric,
            r.pending is None,
    {
        MyPluginSource { byte_metric, pending: None }
    }

    /// Hands the source the value that its next poll reports.
    pub fn supply(&mut self, value: u64)
        ensures
            final(self).byte_metric == old(self).byte_metric,
            final(self).pending == Some(value),
    {
        self.pending = Some(value);
    }
}

impl Source for MyPluginSource {
    open spec fn can_poll(&self) -> bool {
        true
    }

    open spec fn polled(
        before: Self,
        after: Self,
        t: Timestamp,
        pushed: Seq<MeasurementPoint>,
        ok: bool,
    ) -> bool {
        match before.pending {
            Some(v) if before.byte_metric.value_type == MetricType::U64 => {
                let p = pushed[0];
                &&& ok
                &&& after == MyPluginSource { byte_metric: before.byte_metric, pending: None }
                &&& pushed.len() == 1
                &&& p.timestamp == t
                &&& p.metric == before.byte_metric.id
                &&& p.resource == Resource::LocalMachine
                &&& p.consumer == ResourceConsumer::LocalMachine
                &&& p.value == WrappedValue::U64(v)
                &&& p.attrs().len() == 1
                &&& p.attrs()[0].0@ == "double"@
                &&& p.attrs()[0].1 == AttributeValue::U64(v / 2)
            },
            _ => !ok && after == before && pushed.len() == 0,
        }
    }

    fn poll(&mut self, acc: &mut MeasurementAccumulator, t: Timestamp) -> (r: Result<(), PollError>) {
        let value = match self.pending {
            Some(v) => v,
            None => {
                assert(final(acc)@.skip(old(acc)@.len() as int) =~= Seq::<MeasurementPoint>::empty());
                assert(final(acc)@.take(old(acc)@.len() as int) =~= old(acc)@);
                return Err(PollError::NoData);
            },
        };
        let point = match MeasurementPoint::new(
            t,
            self.byte_metric,
            Resource::LocalMachine,
            ResourceConsumer::LocalMachine,
            WrappedValue::U64(value),
        ) {
            Ok(p) => p,
            Err(_) => {
                assert(final(acc)@.skip(old(acc)@.len() as int) =~= Seq::<MeasurementPoint>::empty());
                assert(final(acc)@.take(old(acc)@.len() as int) =~= old(acc)@);
                return Err(PollError::TypeMismatch);
            },
        };
        let point = point.with_attr("double", AttributeValue::U64(value / 2));
        self.pending = None;
        acc.push(point);
        proof {
            assert(final(acc)@.take(old(acc)@.len() as int) =~= old(acc)@);
            assert(final(acc)@.skip(old(acc)@.len() as int) =~= seq![point]);
        }
        Ok(())
    }
}

/// Without an earlier value the difference transform derives nothing: the
/// buffer leaves as it came.
pub proof fn lemma_no_history_no_difference(
    before: ExampleTransform,
    after: ExampleTransform,
    input: Seq<MeasurementPoint>,
    output: Seq<MeasurementPoint>,
    r: Result<(), TransformError>,
)
    requires
        diff_applied(before, after, input, output, r),
        before.previous_counter is None,
    ensures
        output == input,
{
}

/// Two successive ticks whose latest counter values are `a` and then `b`, with
/// `a <= b`, derive nothing at the first and exactly one point of value
/// `b - a` at the second.
pub proof fn lemma_successive_values_difference(
    t0: ExampleTransform,
    t1: ExampleTransform,
    t2: ExampleTransform,
    in1: Seq<MeasurementPoint>,
    out1: Seq<MeasurementPoint>,
    r1: Result<(), TransformError>,
    in2: Seq<MeasurementPoint>,
    out2: Seq<MeasurementPoint>,
    r2: Result<(), TransformError>,
    a: u64,
    b: u64,
)
    requires
        diff_applied(t0, t1, in1, out1, r1),
        diff_applied(t1, t2, in2, out2, r2),
        t0.previous_counter is None,
        t0.diff_metric.value_type == MetricType::U64,
        all_u64_for(in1, t0.counter_metric),
        all_u64_for(in2, t0.counter_metric),
        latest_point(in1, t0.counter_metric) matches Some(p) && p.value == WrappedValue::U64(a),
        latest_point(in2, t0.counter_metric) matches Some(p) && p.value == WrappedValue::U64(b),
        a <= b,
    ensures
        r1 is Ok,
        out1 == in1,
        r2 is Ok,
        out2.len() == in2.len() + 1,
        out2.take(in2.len() as int) == in2,
        out2.last().metric == t0.diff_metric.id,
        out2.last().value == WrappedValue::U64((b - a) as u64),
{
}

/// A buffer that holds a point of an unknown metric makes the text output
/// fail, and no line is rendered for that point or any after it.
pub proof fn lemma_unknown_metric_is_reported(
    before: ExampleOutput,
    after: ExampleOutput,
    input: Seq<MeasurementPoint>,
    defs: Seq<MetricDefinition>,
    texts: Seq<PointText>,
    r: Result<(), WriteError>,
    j: int,
)
    requires
        text_written(before, after, input, defs, texts, r),
        0 <= j < input.len(),
        !resolvable(input[j], defs),
    ensures
        r is Err,
        after.lines@.len() <= before.lines@.len() + j,
{
    let k = choose|k: int| #[trigger] written_upto(before, after, input, defs, texts, r, k);
    if k == input.len() {
        assert(resolvable(input[j], defs));
    }
    if k > j {
        assert(resolvable(input[j], defs));
    }
}

} // verus!
