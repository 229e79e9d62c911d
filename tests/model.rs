use plugin_example::measurement::{
    AttributeValue, MeasurementAccumulator, MeasurementBuffer, MeasurementPoint, PointError,
    Timestamp, WrappedValue,
};
use plugin_example::metrics::{MetricType, RawMetricId, TypedMetricId};
use plugin_example::resources::{Resource, ResourceConsumer};
use plugin_example::text::{decimal_string, render_line, PointText};

fn texts(time: &str, float_value: &str) -> PointText {
    PointText { time: time.to_string(), float_value: float_value.to_string() }
}

fn u64_metric(id: u64) -> TypedMetricId {
    TypedMetricId { id: RawMetricId { id }, value_type: MetricType::U64 }
}

fn point(id: u64, v: u64) -> MeasurementPoint {
    MeasurementPoint::new(
        Timestamp { nanos: 7 },
        u64_metric(id),
        Resource::LocalMachine,
        ResourceConsumer::LocalMachine,
        WrappedValue::U64(v),
    )
    .unwrap()
}

#[test]
fn f64_value_on_u64_metric_is_rejected() {
    let r = MeasurementPoint::new(
        Timestamp { nanos: 1 },
        u64_metric(0),
        Resource::LocalMachine,
        ResourceConsumer::LocalMachine,
        WrappedValue::F64Bits(0),
    );
    assert_eq!(r.err(), Some(PointError::TypeMismatch));
}

#[test]
fn u64_value_on_u64_metric_is_accepted() {
    let p = point(2, 42);
    assert_eq!(p.value, WrappedValue::U64(42));
    assert_eq!(p.metric, RawMetricId { id: 2 });
    assert_eq!(p.attributes_len(), 0);
}

#[test]
fn with_attr_appends_then_replaces() {
    let p = point(0, 1)
        .with_attr("a", AttributeValue::U64(1))
        .with_attr("b", AttributeValue::Bool(true))
        .with_attr("a", AttributeValue::U64(9));
    assert_eq!(p.attributes_len(), 2);
    assert_eq!(p.attribute(0).0, "a");
    assert!(matches!(p.attribute(0).1, AttributeValue::U64(9)));
    assert_eq!(p.attribute(1).0, "b");
}

#[test]
fn buffer_keeps_insertion_order() {
    let mut acc = MeasurementAccumulator::new();
    acc.push(point(0, 5));
    acc.push(point(1, 6));
    let mut buf = MeasurementBuffer::new();
    buf.push(point(2, 4));
    buf.merge(acc);
    assert_eq!(buf.len(), 3);
    assert_eq!(buf.get(0).value, WrappedValue::U64(4));
    assert_eq!(buf.get(1).value, WrappedValue::U64(5));
    assert_eq!(buf.get(2).value, WrappedValue::U64(6));
}

#[test]
fn decimal_notation() {
    assert_eq!(decimal_string(0), "0");
    assert_eq!(decimal_string(7), "7");
    assert_eq!(decimal_string(1205), "1205");
    assert_eq!(decimal_string(u64::MAX), "18446744073709551615");
}

#[test]
fn resource_kinds_and_ids() {
    assert_eq!(Resource::LocalMachine.kind(), "local_machine");
    assert_eq!(Resource::CpuCore { id: 3 }.kind(), "cpu_core");
    assert_eq!(Resource::Dram { pkg_id: 1 }.id_text(), "1");
    assert_eq!(Resource::Gpu { bus_id: "0000:01:00.0".to_string() }.kind(), "gpu");
    let custom = Resource::Custom { kind: "fan".to_string(), id: "north".to_string() };
    assert_eq!(custom.kind(), "fan");
    assert_eq!(custom.id_text(), "north");
    assert_eq!(ResourceConsumer::Process { pid: 42 }.kind(), "process");
    assert_eq!(ResourceConsumer::ControlGroup { path: "/a/b".to_string() }.kind(), "cgroup");
    assert_eq!(ResourceConsumer::ControlGroup { path: "/a/b".to_string() }.id_text(), "/a/b");
    assert_eq!(ResourceConsumer::LocalMachine.id_text(), "");
}

#[test]
fn line_has_every_field() {
    let p = MeasurementPoint::new(
        Timestamp { nanos: 1500 },
        u64_metric(0),
        Resource::CpuCore { id: 3 },
        ResourceConsumer::Process { pid: 42 },
        WrappedValue::U64(17),
    )
    .unwrap()
    .with_attr("double", AttributeValue::U64(8))
    .with_attr("host", AttributeValue::Str("n1".to_string()));
    let line = render_line(&p, &"power".to_string(), &texts("t1500", ""));
    assert_eq!(
        line,
        "t1500: power = 17; resource = cpu_core/3; consumer = process/42; attributes = [double='8',host='n1']"
    );
}

#[test]
fn line_of_local_machine_without_attributes() {
    let p = point(0, 3);
    assert_eq!(
        render_line(&p, &"c".to_string(), &texts("T", "unused")),
        "T: c = 3; resource = local_machine/; consumer = local_machine/; attributes = []"
    );
}

#[test]
fn float_value_takes_the_host_text() {
    let metric = TypedMetricId { id: RawMetricId { id: 0 }, value_type: MetricType::F64 };
    let p = MeasurementPoint::new(
        Timestamp { nanos: 2 },
        metric,
        Resource::Dram { pkg_id: 0 },
        ResourceConsumer::LocalMachine,
        WrappedValue::F64Bits(4607182418800017408),
    )
    .unwrap();
    assert_eq!(
        render_line(&p, &"power".to_string(), &texts("T2", &f64::from_bits(4607182418800017408).to_string())),
        "T2: power = 1; resource = dram/0; consumer = local_machine/; attributes = []"
    );
}

#[test]
fn line_with_string_ids() {
    let p = MeasurementPoint::new(
        Timestamp { nanos: 3 },
        u64_metric(0),
        Resource::Gpu { bus_id: "0000:01:00.0".to_string() },
        ResourceConsumer::ControlGroup { path: "/user.slice".to_string() },
        WrappedValue::U64(5),
    )
    .unwrap();
    assert_eq!(
        render_line(&p, &"mem".to_string(), &texts("T3", "")),
        "T3: mem = 5; resource = gpu/0000:01:00.0; consumer = cgroup//user.slice; attributes = []"
    );
}
