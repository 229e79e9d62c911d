use plugin_example::metrics::{MetricError, MetricRegistry, MetricType, RawMetricId, Unit};

#[test]
fn first_metric_gets_id_zero() {
    let mut r = MetricRegistry::new();
    let id = r.create_metric("energy", MetricType::U64, Unit::Joule, "consumed energy").unwrap();
    assert_eq!(id.untyped_id().as_u64(), 0);
    assert_eq!(id.value_type, MetricType::U64);
    let def = r.resolve(id.untyped_id()).unwrap();
    assert_eq!(def.name, "energy");
    assert_eq!(def.unit, Unit::Joule);
    assert_eq!(def.description, "consumed energy");
}

#[test]
fn same_name_twice_fails() {
    let mut r = MetricRegistry::new();
    assert!(r.create_metric("a", MetricType::U64, Unit::Unity, "x").is_ok());
    assert_eq!(
        r.create_metric("a", MetricType::F64, Unit::Watt, "y").unwrap_err(),
        MetricError::DuplicateName
    );
    assert_eq!(r.len(), 1);
}

#[test]
fn distinct_names_get_distinct_ids() {
    let mut r = MetricRegistry::new();
    let a = r.create_metric("a", MetricType::U64, Unit::Unity, "").unwrap();
    let b = r.create_metric("b", MetricType::F64, Unit::Watt, "").unwrap();
    assert_eq!(a.id.id, 0);
    assert_eq!(b.id.id, 1);
    assert_eq!(r.find_by_name("b"), Some(1));
    assert_eq!(r.find_by_name("c"), None);
}

#[test]
fn closed_registry_refuses_metrics() {
    let mut r = MetricRegistry::new();
    r.close();
    assert!(!r.accepts_new_metrics());
    assert_eq!(
        r.create_metric("a", MetricType::U64, Unit::Unity, "").unwrap_err(),
        MetricError::RegistrationClosed
    );
}

#[test]
fn unknown_id_is_not_found() {
    let r = MetricRegistry::new();
    assert_eq!(r.resolve(RawMetricId { id: 3 }).unwrap_err(), MetricError::NotFound);
}
