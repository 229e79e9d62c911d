use plugin_example::example::{ExampleOutput, ExampleSource, ExampleTransform, MyPluginSource};
use plugin_example::measurement::{
    AttributeValue, MeasurementAccumulator, MeasurementBuffer, MeasurementPoint, Timestamp,
    WrappedValue,
};
use plugin_example::metrics::{MetricRegistry, MetricType, RawMetricId, TypedMetricId, Unit};
use plugin_example::resources::{Resource, ResourceConsumer};
use plugin_example::stages::{Output, PollError, Source, Transform, TransformError, WriteError};
use plugin_example::text::PointText;

fn u64_metric(id: u64) -> TypedMetricId {
    TypedMetricId { id: RawMetricId { id }, value_type: MetricType::U64 }
}

fn counter_point(t: u64, v: u64) -> MeasurementPoint {
    MeasurementPoint::new(
        Timestamp { nanos: t },
        u64_metric(0),
        Resource::LocalMachine,
        ResourceConsumer::LocalMachine,
        WrappedValue::U64(v),
    )
    .unwrap()
}

fn buffer_of(points: Vec<MeasurementPoint>) -> MeasurementBuffer {
    let mut b = MeasurementBuffer::new();
    for p in points {
        b.push(p);
    }
    b
}

#[test]
fn counter_source_counts_polls() {
    let mut s = ExampleSource::new(u64_metric(0));
    let mut acc = MeasurementAccumulator::new();
    assert!(s.poll(&mut acc, Timestamp { nanos: 10 }).is_ok());
    assert!(s.poll(&mut acc, Timestamp { nanos: 20 }).is_ok());
    assert_eq!(s.counter, 2);
    let mut buf = MeasurementBuffer::new();
    buf.merge(acc);
    assert_eq!(buf.get(0).value, WrappedValue::U64(0));
    assert_eq!(buf.get(1).value, WrappedValue::U64(1));
    assert_eq!(buf.get(1).timestamp, Timestamp { nanos: 20 });
}

#[test]
fn counter_source_with_float_metric_fails() {
    let metric = TypedMetricId { id: RawMetricId { id: 0 }, value_type: MetricType::F64 };
    let mut s = ExampleSource::new(metric);
    let mut acc = MeasurementAccumulator::new();
    assert_eq!(s.poll(&mut acc, Timestamp { nanos: 1 }), Err(PollError::TypeMismatch));
    assert_eq!(s.counter, 0);
}

#[test]
fn single_value_derives_nothing() {
    let reg = MetricRegistry::new();
    let mut t = ExampleTransform::new(RawMetricId { id: 0 }, u64_metric(1));
    let mut buf = buffer_of(vec![counter_point(1, 10)]);
    assert!(t.apply(&mut buf, &reg).is_ok());
    assert_eq!(buf.len(), 1);
    assert_eq!(t.previous_counter, Some(10));
}

#[test]
fn ten_then_fifteen_derives_five() {
    let reg = MetricRegistry::new();
    let mut t = ExampleTransform::new(RawMetricId { id: 0 }, u64_metric(1));
    let mut first = buffer_of(vec![counter_point(1, 10)]);
    t.apply(&mut first, &reg).unwrap();
    let mut second = buffer_of(vec![counter_point(2, 15)]);
    t.apply(&mut second, &reg).unwrap();
    assert_eq!(second.len(), 2);
    let d = second.get(1);
    assert_eq!(d.metric, RawMetricId { id: 1 });
    assert_eq!(d.value, WrappedValue::U64(5));
    assert_eq!(d.timestamp, Timestamp { nanos: 2 });
}

#[test]
fn tick_without_counter_keeps_previous_value() {
    let reg = MetricRegistry::new();
    let mut t = ExampleTransform::new(RawMetricId { id: 0 }, u64_metric(1));
    t.apply(&mut buffer_of(vec![counter_point(1, 10)]), &reg).unwrap();
    let mut empty = MeasurementBuffer::new();
    t.apply(&mut empty, &reg).unwrap();
    assert_eq!(empty.len(), 0);
    assert_eq!(t.previous_counter, Some(10));
    let mut third = buffer_of(vec![counter_point(3, 12)]);
    t.apply(&mut third, &reg).unwrap();
    assert_eq!(third.get(1).value, WrappedValue::U64(2));
}

#[test]
fn counter_reset_derives_nothing() {
    let reg = MetricRegistry::new();
    let mut t = ExampleTransform::new(RawMetricId { id: 0 }, u64_metric(1));
    t.apply(&mut buffer_of(vec![counter_point(1, 10)]), &reg).unwrap();
    let mut b = buffer_of(vec![counter_point(2, 4)]);
    t.apply(&mut b, &reg).unwrap();
    assert_eq!(b.len(), 1);
    assert_eq!(t.previous_counter, Some(4));
}

#[test]
fn float_counter_value_is_reported() {
    let reg = MetricRegistry::new();
    let mut t = ExampleTransform::new(RawMetricId { id: 0 }, u64_metric(1));
    let mut p = counter_point(1, 0);
    p.value = WrappedValue::F64Bits(0);
    let mut b = buffer_of(vec![p]);
    assert_eq!(
        t.apply(&mut b, &reg),
        Err(TransformError::UnexpectedValueType { metric: RawMetricId { id: 0 } })
    );
    assert_eq!(t.previous_counter, None);
}

#[test]
fn float_diff_metric_is_refused() {
    let reg = MetricRegistry::new();
    let diff = TypedMetricId { id: RawMetricId { id: 1 }, value_type: MetricType::F64 };
    let mut t = ExampleTransform::new(RawMetricId { id: 0 }, diff);
    let mut b = buffer_of(vec![counter_point(1, 3)]);
    assert_eq!(t.apply(&mut b, &reg), Err(TransformError::TypeMismatch));
}

#[test]
fn unknown_metric_is_a_write_error() {
    let mut reg = MetricRegistry::new();
    reg.create_metric("c", MetricType::U64, Unit::Unity, "").unwrap();
    let mut out = ExampleOutput::new();
    let mut stray = counter_point(2, 1);
    stray.metric = RawMetricId { id: 9 };
    let buf = buffer_of(vec![counter_point(1, 0), stray, counter_point(3, 2)]);
    let texts: Vec<PointText> = (1..=3)
        .map(|t| PointText { time: format!("t{t}"), float_value: String::new() })
        .collect();
    assert_eq!(out.write(&buf, &reg, &texts), Err(WriteError::UnregisteredMetric { id: 9 }));
    let lines = out.take_lines();
    assert_eq!(lines.len(), 1);
    assert!(lines[0].starts_with("t1: c = 0;"));
}

#[test]
fn random_source_reports_supplied_value_and_half() {
    let mut s = MyPluginSource::new(u64_metric(0));
    let mut acc = MeasurementAccumulator::new();
    assert_eq!(s.poll(&mut acc, Timestamp { nanos: 1 }), Err(PollError::NoData));
    s.supply(21);
    assert!(s.poll(&mut acc, Timestamp { nanos: 2 }).is_ok());
    assert_eq!(s.pending, None);
    let mut buf = MeasurementBuffer::new();
    buf.merge(acc);
    let p = buf.get(0);
    assert_eq!(p.value, WrappedValue::U64(21));
    assert_eq!(p.attribute(0).0, "double");
    assert!(matches!(p.attribute(0).1, AttributeValue::U64(10)));
}

#[test]
fn rendering_stops_at_first_unnamed_metric() {
    let buf = buffer_of(vec![counter_point(1, 4), counter_point(2, 5), counter_point(3, 6)]);
    let names = vec![Some("c".to_string()), None, Some("c".to_string())];
    let texts: Vec<PointText> = (1..=3)
        .map(|t| PointText { time: format!("t{t}"), float_value: String::new() })
        .collect();
    let (lines, r) = plugin_example::example::render_until_unresolved(&buf, &names, &texts);
    assert_eq!(lines.len(), 1);
    assert!(lines[0].starts_with("t1: c = 4;"));
    assert_eq!(r, Err(WriteError::UnregisteredMetric { id: 0 }));
}

#[test]
fn rendering_with_every_name_succeeds() {
    let buf = buffer_of(vec![counter_point(1, 4), counter_point(2, 5)]);
    let names = vec![Some("a".to_string()), Some("b".to_string())];
    let texts: Vec<PointText> = (1..=2)
        .map(|t| PointText { time: format!("t{t}"), float_value: String::new() })
        .collect();
    let (lines, r) = plugin_example::example::render_until_unresolved(&buf, &names, &texts);
    assert_eq!(r, Ok(()));
    assert_eq!(lines.len(), 2);
    assert!(lines[1].starts_with("t2: b = 5;"));
}
