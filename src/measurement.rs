use vstd::prelude::*;
use crate::metrics::{MetricType, RawMetricId, TypedMetricId};
use crate::resources::{Resource, ResourceConsumer};

verus! {

/// The time of a measurement, in nanoseconds since the Unix epoch.
#[derive(Clone, Copy, Debug, PartialEq, Eq, Structural)]
pub struct Timestamp {
    pub nanos: u64,
}

/// A measured value. Floating-point values are carried as their IEEE-754 bit pattern.
#[derive(Clone, Copy, Debug, PartialEq, Eq, Structural)]
pub enum WrappedValue {
    U64(u64),
    F64Bits(u64),
}

pub open spec fn value_kind(v: WrappedValue) -> MetricType {
    match v {
        WrappedValue::U64(_) => MetricType::U64,
        WrappedValue::F64Bits(_) => MetricType::F64,
    }
}

impl WrappedValue {
    pub fn value_type(&self) -> (r: MetricType)
        ensures
            r == value_kind(*self),
    {
        match self {
            WrappedValue::U64(_) => MetricType::U64,
            WrappedValue::F64Bits(_) => MetricType::F64,
        }
    }
}

/// The value of an attribute attached to a point.
#[derive(Clone, Debug)]
pub enum AttributeValue {
    U64(u64),
    Bool(bool),
    Str(String),
}

/// Errors raised when building a point.
#[derive(Clone, Copy, Debug, PartialEq, Eq, Structural)]
pub enum PointError {
    /// The value's kind differs from the one that the metric declares.
    TypeMismatch,
}

/// True when no two attributes share a key.
pub open spec fn keys_unique(attrs: Seq<(String, AttributeValue)>) -> bool {
    forall|i: int, j: int|
        0 <= i < attrs.len() && 0 <= j < attrs.len() && i != j ==> #[trigger] attrs[i].0@
            != #[trigger] attrs[j].0@
}

pub open spec fn has_key(attrs: Seq<(String, AttributeValue)>, key: Seq<char>) -> bool {
    exists|i: int| 0 <= i < attrs.len() && #[trigger] attrs[i].0@ == key
}

/// One measured value with its metadata.
pub struct MeasurementPoint {
    pub timestamp: Timestamp,
    pub metric: RawMetricId,
    pub resource: Resource,
    pub consumer: ResourceConsumer,
    pub value: WrappedValue,
    pub attributes: Vec<(String, AttributeValue)>,
}

impl MeasurementPoint {
    /// The attributes, in the order in which they were first set.
    pub open spec fn attrs(&self) -> Seq<(String, AttributeValue)> {
        self.attributes@
    }

    pub open spec fn wf(&self) -> bool {
        keys_unique(self.attrs())
    }

    /// Builds a point without attributes. The value must be of the kind that
    /// the metric declares.
    pub fn new(
        timestamp: Timestamp,
        metric: TypedMetricId,
        resource: Resource,
        consumer: ResourceConsumer,
        value: WrappedValue,
    ) -> (r: Result<MeasurementPoint, PointError>)
        ensures
            value_kind(value) != metric.value_type ==> r == Err::<MeasurementPoint, PointError>(
                PointError::TypeMismatch,
            ),
            value_kind(value) == metric.value_type ==> (r matches Ok(p) && p.wf() && p.timestamp
                == timestamp && p.metric == metric.id && p.resource == resource && p.consumer
                == consumer && p.value == value && p.attrs().len() == 0),
    {
        let kind = value.value_type();
        let matches_kind = match (kind, metric.value_type) {
            (MetricType::U64, MetricType::U64) => true,
            (MetricType::F64, MetricType::F64) => true,
            _ => false,
        };
        if !matches_kind {
            return Err(PointError::TypeMismatch);
        }
        Ok(MeasurementPoint {
            timestamp,
            metric: metric.id,
            resource,
            consumer,
            value,
            attributes: Vec::new(),
        })
    }

    pub fn attributes_len(&self) -> (r: usize)
        ensures
            r == self.attrs().len(),
    {
        self.attributes.len()
    }

    /// The attribute at position `i`.
    pub fn attribute(&self, i: usize) -> (r: &(String, AttributeValue))
        requires
            i < self.attrs().len(),
        ensures
            *r == self.attrs()[i as int],
    {
        &self.attributes[i]
    }

    /// Sets an attribute. An attribute with the same key keeps its position and
    /// takes the new value; otherwise the attribute is appended.
    pub fn with_attr(self, key: &str, value: AttributeValue) -> (r: MeasurementPoint)
        requires
            self.wf(),
        ensures
            r.wf(),
            r.timestamp == self.timestamp,
            r.metric == self.metric,
            r.resource == self.resource,
            r.consumer == self.consumer,
            r.value == self.value,
            has_key(self.attrs(), key@) ==> {
                &&& r.attrs().len() == self.attrs().len()
                &&& forall|i: int|
                    0 <= i < self.attrs().len() ==> if #[trigger] self.attrs()[i].0@ == key@ {
                        r.attrs()[i].0@ == key@ && r.attrs()[i].1 == value
                    } else {
                        r.attrs()[i] == self.attrs()[i]
                    }
            },
            !has_key(self.attrs(), key@) ==> {
                &&& r.attrs().len() == self.attrs().len() + 1
                &&& r.attrs().take(self.attrs().len() as int) == self.attrs()
                &&& r.attrs().last().0@ == key@
                &&& r.attrs().last().1 == value
            },
    {
        let mut p = self;
        let wanted = key.to_owned();
        let n = p.attributes.len();
        let mut i: usize = 0;
        while i < n
            invariant
                n == p.attributes@.len(),
                i <= n,
                wanted@ == key@,
                p == self,
                keys_unique(self.attrs()),
                forall|k: int| 0 <= k < i ==> #[trigger] p.attributes@[k].0@ != key@,
            decreases n - i,
        {
            let same = p.attributes[i].0 == wanted;
            if same {
                let ghost before = p.attributes@;
                assert(before[i as int].0@ == key@);
                p.attributes.set(i, (wanted, value));
                proof {
                    assert(p.attributes@ == before.update(i as int, (wanted, value)));
                    assert forall|k: int| 0 <= k < before.len() implies if #[trigger] before[k].0@
                        == key@ {
                        p.attributes@[k].0@ == key@ && p.attributes@[k].1 == value
                    } else {
                        p.attributes@[k] == before[k]
                    } by {
                        if k != i {
                            assert(p.attributes@[k] == before[k]);
                            assert(before[i as int].0@ != before[k].0@);
                        }
                    }
                    assert forall|a: int, b: int|
                        0 <= a < p.attributes@.len() && 0 <= b < p.attributes@.len() && a != b
                            implies #[trigger] p.attributes@[a].0@ != #[trigger] p.attributes@[b].0@ by {
                        if a != i && b != i {
                            assert(before[a].0@ != before[b].0@);
                        } else if a == i {
                            assert(before[i as int].0@ != before[b].0@);
                        } else {
                            assert(before[a].0@ != before[i as int].0@);
                        }
                    }
                }
                return p;
            }
            i = i + 1;
        }
        p.attributes.push((wanted, value));
        proof {
            assert(p.attributes@.take(n as int) =~= self.attributes@);
            assert forall|a: int, b: int|
                0 <= a < p.attributes@.len() && 0 <= b < p.attributes@.len() && a != b
                    implies #[trigger] p.attributes@[a].0@ != #[trigger] p.attributes@[b].0@ by {
                if a < n && b < n {
                    assert(self.attributes@[a].0@ != self.attributes@[b].0@);
                } else if a == n {
                    assert(self.attributes@[b].0@ != key@);
                } else {
                    assert(self.attributes@[a].0@ != key@);
                }
            }
        }
        p
    }
}

/// The points of one tick, in insertion order.
pub struct MeasurementBuffer {
    points: Vec<MeasurementPoint>,
}

impl View for MeasurementBuffer {
    type V = Seq<MeasurementPoint>;

    closed spec fn view(&self) -> Seq<MeasurementPoint> {
        self.points@
    }
}

impl MeasurementBuffer {
    pub fn new() -> (r: MeasurementBuffer)
        ensures
            r@ == Seq::<MeasurementPoint>::empty(),
    {
        MeasurementBuffer { points: Vec::new() }
    }

    pub fn len(&self) -> (r: usize)
        ensures
            r == self@.len(),
    {
        self.points.len()
    }

    pub fn is_empty(&self) -> (r: bool)
        ensures
            r == (self@.len() == 0),
    {
        self.points.len() == 0
    }

    pub fn get(&self, i: usize) -> (r: &MeasurementPoint)
        requires
            i < self@.len(),
        ensures
            *r == self@[i as int],
    {
        &self.points[i]
    }

    pub fn push(&mut self, point: MeasurementPoint)
        ensures
            final(self)@ == old(self)@.push(point),
    {
        self.points.push(point);
    }

    /// Appends the points of an accumulator, keeping their order.
    pub fn merge(&mut self, acc: MeasurementAccumulator)
        ensures
            final(self)@ == old(self)@ + acc@,
    {
        let mut other = acc.points;
        self.points.append(&mut other);
    }
}

/// A write-only handle through which a source emits its points.
pub struct MeasurementAccumulator {
    points: Vec<MeasurementPoint>,
}

impl View for MeasurementAccumulator {
    type V = Seq<MeasurementPoint>;

    closed spec fn view(&self) -> Seq<MeasurementPoint> {
        self.points@
    }
}

impl MeasurementAccumulator {
    pub fn new() -> (r: MeasurementAccumulator)
        ensures
            r@ == Seq::<MeasurementPoint>::empty(),
    {
        MeasurementAccumulator { points: Vec::new() }
    }

    pub fn push(&mut self, point: MeasurementPoint)
        ensures
            final(self)@ == old(self)@.push(point),
    {
        self.points.push(point);
    }

    pub fn len(&self) -> (r: usize)
        ensures
            r == self@.len(),
    {
        self.points.len()
    }
}

} // verus!
