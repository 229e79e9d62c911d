use plugin_example::example::{ExampleOutput, ExampleSource, ExampleTransform, MyPluginSource};
use plugin_example::measurement::{Timestamp, WrappedValue};
use plugin_example::metrics::{MetricError, MetricType, Unit};
use plugin_example::pipeline::{Pipeline, StageError};
use plugin_example::plugin::{Config, ExamplePlugin, MyPlugin, StartError, ONE_SECOND_NANOS};
use plugin_example::scheduler::TriggerSpec;
use plugin_example::pipeline::TickReport;
use plugin_example::stages::{PollError, Transform, Output, Source};
use plugin_example::text::PointText;
use std::time::{Duration, UNIX_EPOCH};

/// The host's texts for the points of a tick: the time as the system clock
/// shows it, the floating-point value as a number.
fn host_texts(report: &TickReport) -> Vec<PointText> {
    (0..report.delivered.len())
        .map(|i| {
            let p = report.delivered.get(i);
            let float_value = match p.value {
                WrappedValue::F64Bits(b) => f64::from_bits(b).to_string(),
                WrappedValue::U64(_) => String::new(),
            };
            PointText {
                time: format!("{:?}", UNIX_EPOCH + Duration::from_nanos(p.timestamp.nanos)),
                float_value,
            }
        })
        .collect()
}

fn run_tick<S: Source, T: Transform, O: Output>(
    p: &mut Pipeline<S, T, O>,
    fired: &Vec<usize>,
    t: Timestamp,
) -> (TickReport, Vec<Result<(), plugin_example::stages::WriteError>>) {
    let report = p.tick(fired, t);
    let texts = host_texts(&report);
    let writes = p.deliver(&report, &texts);
    (report, writes)
}

type ExamplePipeline = Pipeline<ExampleSource, ExampleTransform, ExampleOutput>;

#[test]
fn counter_diff_and_text_over_three_ticks() {
    let mut p: ExamplePipeline = Pipeline::new();
    let mut plugin = ExamplePlugin::init();
    plugin.start(&mut p, 0).unwrap();
    p.finish_start();
    for k in 1..=3u64 {
        let now = k * ONE_SECOND_NANOS;
        let fired = p.due_sources(now);
        assert_eq!(fired, vec![0]);
        let (report, writes) = run_tick(&mut p, &fired, Timestamp { nanos: now });
        assert!(report.poll_results.iter().all(|r| r.is_ok()));
        assert!(writes.iter().all(|r| r.is_ok()));
        assert_eq!(p.finish_polls(&fired, now), vec![true]);
    }
    let lines = p.output_mut(0).take_lines();
    let expected = vec![
        "SystemTime { tv_sec: 1, tv_nsec: 0 }: example_source_call_counter = 0; resource = local_machine/; consumer = local_machine/; attributes = []",
        "SystemTime { tv_sec: 2, tv_nsec: 0 }: example_source_call_counter = 1; resource = local_machine/; consumer = local_machine/; attributes = []",
        "SystemTime { tv_sec: 2, tv_nsec: 0 }: example_source_call_diff = 1; resource = local_machine/; consumer = local_machine/; attributes = []",
        "SystemTime { tv_sec: 3, tv_nsec: 0 }: example_source_call_counter = 2; resource = local_machine/; consumer = local_machine/; attributes = []",
        "SystemTime { tv_sec: 3, tv_nsec: 0 }: example_source_call_diff = 1; resource = local_machine/; consumer = local_machine/; attributes = []",
    ];
    assert_eq!(lines, expected);
    let counters = lines.iter().filter(|l| l.contains("call_counter")).count();
    let diffs = lines.iter().filter(|l| l.contains("call_diff")).count();
    assert_eq!(counters, 3);
    assert_eq!(diffs, 2);
}

#[test]
fn empty_tick_runs_no_stage() {
    let mut p: ExamplePipeline = Pipeline::new();
    ExamplePlugin::init().start(&mut p, 0).unwrap();
    p.finish_start();
    let (report, writes) = run_tick(&mut p, &Vec::new(), Timestamp { nanos: 5 });
    assert!(report.transform_results.is_empty());
    assert!(writes.is_empty());
    assert_eq!(p.output_mut(0).take_lines().len(), 0);
}

#[test]
fn plugin_started_twice_hits_duplicate_name() {
    let mut p: ExamplePipeline = Pipeline::new();
    ExamplePlugin::init().start(&mut p, 0).unwrap();
    assert_eq!(
        ExamplePlugin::init().start(&mut p, 0),
        Err(StartError::Metric(MetricError::DuplicateName))
    );
}

#[test]
fn stages_refused_after_start_phase() {
    let mut p: ExamplePipeline = Pipeline::new();
    p.finish_start();
    let src = ExampleSource::new(plugin_example::metrics::TypedMetricId {
        id: plugin_example::metrics::RawMetricId { id: 0 },
        value_type: MetricType::U64,
    });
    assert_eq!(p.add_source(src, TriggerSpec::at_interval(1), 0), Err(StageError::OutsideStartPhase));
    assert_eq!(
        p.create_metric("x", MetricType::U64, Unit::Unity, "").unwrap_err(),
        MetricError::RegistrationClosed
    );
    assert_eq!(
        ExamplePlugin::init().start(&mut p, 0),
        Err(StartError::Metric(MetricError::RegistrationClosed))
    );
}

#[test]
fn failed_poll_does_not_hold_back_other_sources() {
    let mut p: Pipeline<MyPluginSource, ExampleTransform, ExampleOutput> = Pipeline::new();
    let mut a = MyPlugin::init(Config::default());
    a.start(&mut p, 0).unwrap();
    let metric = a.metrics.unwrap().a_metric;
    p.add_source(MyPluginSource::new(metric), TriggerSpec::at_interval(ONE_SECOND_NANOS), 0)
        .unwrap();
    p.add_output(ExampleOutput::new()).unwrap();
    p.finish_start();

    // tick one: only the second source has a value
    p.source_mut(1).supply(8);
    let fired = p.due_sources(ONE_SECOND_NANOS);
    assert_eq!(fired, vec![0, 1]);
    let (report, writes) = run_tick(&mut p, &fired, Timestamp { nanos: ONE_SECOND_NANOS });
    assert_eq!(report.poll_results, vec![Err(PollError::NoData), Ok(())]);
    assert_eq!(report.delivered.len(), 1);
    assert_eq!(report.delivered.get(0).value, WrappedValue::U64(8));
    assert_eq!(writes, vec![Ok(())]);
    p.finish_polls(&fired, ONE_SECOND_NANOS);

    // tick two: the source that failed reports again
    p.source_mut(0).supply(3);
    p.source_mut(1).supply(4);
    let fired = p.due_sources(2 * ONE_SECOND_NANOS);
    let (report, _) = run_tick(&mut p, &fired, Timestamp { nanos: 2 * ONE_SECOND_NANOS });
    assert_eq!(report.poll_results, vec![Ok(()), Ok(())]);
    assert_eq!(report.delivered.len(), 2);
    assert_eq!(report.delivered.get(0).value, WrappedValue::U64(3));
    let lines = p.output_mut(0).take_lines();
    assert_eq!(lines.len(), 3);
    assert_eq!(
        lines[0],
        "SystemTime { tv_sec: 1, tv_nsec: 0 }: random_byte = 8; resource = local_machine/; consumer = local_machine/; attributes = [double='4']"
    );
}

#[test]
fn stop_while_polling_delivers_then_drops() {
    let mut p: ExamplePipeline = Pipeline::new();
    ExamplePlugin::init().start(&mut p, 0).unwrap();
    p.finish_start();
    let fired = p.due_sources(ONE_SECOND_NANOS);
    assert_eq!(fired, vec![0]);
    p.stop();
    let (report, _) = run_tick(&mut p, &fired, Timestamp { nanos: ONE_SECOND_NANOS });
    assert_eq!(report.delivered.len(), 1);
    assert_eq!(p.finish_polls(&fired, ONE_SECOND_NANOS), vec![true]);
    assert!(p.scheduler().is_drained());
    assert!(p.due_sources(10 * ONE_SECOND_NANOS).is_empty());
    assert_eq!(p.output_mut(0).take_lines().len(), 1);
}

#[test]
fn plugin_names_and_default_config() {
    assert_eq!(ExamplePlugin::name(), "example");
    assert_eq!(MyPlugin::name(), "MyPlugin");
    assert_eq!(Config::default().poll_interval_nanos, ONE_SECOND_NANOS);
}

#[test]
fn example_start_registers_typed_metrics_and_schedule() {
    let mut p: ExamplePipeline = Pipeline::new();
    ExamplePlugin::init().start(&mut p, 7).unwrap();
    let reg = p.metrics();
    assert_eq!(reg.len(), 2);
    let counter = reg.resolve(plugin_example::metrics::RawMetricId { id: 0 }).unwrap();
    assert_eq!(counter.name, "example_source_call_counter");
    assert_eq!(counter.value_type, MetricType::U64);
    assert_eq!(counter.unit, Unit::Unity);
    assert_eq!(counter.description, "number of times the example source has been called");
    let diff = reg.resolve(plugin_example::metrics::RawMetricId { id: 1 }).unwrap();
    assert_eq!(diff.name, "example_source_call_diff");
    assert_eq!(diff.unit, Unit::Unity);
    let trigger = p.scheduler().trigger(0);
    assert_eq!(trigger.interval, ONE_SECOND_NANOS);
    assert_eq!(trigger.next_due, 7 + ONE_SECOND_NANOS);
    assert_eq!(p.n_sources(), 1);
    assert_eq!(p.n_transforms(), 1);
    assert_eq!(p.n_outputs(), 1);
}

#[test]
fn example_start_with_diff_name_taken_keeps_counter_only() {
    let mut p: ExamplePipeline = Pipeline::new();
    p.create_metric("example_source_call_diff", MetricType::U64, Unit::Unity, "").unwrap();
    assert_eq!(
        ExamplePlugin::init().start(&mut p, 0),
        Err(StartError::Metric(MetricError::DuplicateName))
    );
    assert_eq!(p.metrics().len(), 2);
    assert_eq!(p.metrics().find_by_name("example_source_call_counter"), Some(1));
    assert_eq!(p.n_sources(), 0);
    assert_eq!(p.n_transforms(), 0);
    assert_eq!(p.n_outputs(), 0);
}

#[test]
fn my_plugin_start_uses_configured_interval_and_byte_unit() {
    let mut p: Pipeline<MyPluginSource, ExampleTransform, ExampleOutput> = Pipeline::new();
    let mut plugin = MyPlugin::init(Config { poll_interval_nanos: 250 });
    plugin.start(&mut p, 1000).unwrap();
    let def = p.metrics().resolve(plugin_example::metrics::RawMetricId { id: 0 }).unwrap();
    assert_eq!(def.name, "random_byte");
    assert_eq!(def.unit, Unit::Byte);
    assert_eq!(def.description, "Byte randomly get");
    assert_eq!(p.scheduler().trigger(0).interval, 250);
    assert_eq!(p.scheduler().trigger(0).next_due, 1250);
}

#[test]
fn my_plugin_second_start_changes_nothing() {
    let mut p: Pipeline<MyPluginSource, ExampleTransform, ExampleOutput> = Pipeline::new();
    MyPlugin::init(Config::default()).start(&mut p, 0).unwrap();
    let mut second = MyPlugin::init(Config::default());
    assert_eq!(second.start(&mut p, 0), Err(StartError::Metric(MetricError::DuplicateName)));
    assert!(second.metrics.is_none());
    assert_eq!(p.n_sources(), 1);
    assert_eq!(p.scheduler().len(), 1);
}

#[test]
fn example_registration_plan() {
    let (c, d) = ExamplePlugin::metric_specs();
    assert_eq!(c.name, "example_source_call_counter");
    assert_eq!(c.unit, Unit::Unity);
    assert_eq!(c.value_type, MetricType::U64);
    assert_eq!(d.name, "example_source_call_diff");
    assert_eq!(d.description, "number of times the example source has been called since the previous measurement");
    let counter = plugin_example::metrics::TypedMetricId {
        id: plugin_example::metrics::RawMetricId { id: 4 },
        value_type: MetricType::U64,
    };
    let diff = plugin_example::metrics::TypedMetricId {
        id: plugin_example::metrics::RawMetricId { id: 5 },
        value_type: MetricType::U64,
    };
    let stages = ExamplePlugin::stages(counter, diff);
    assert_eq!(stages.source.metric, counter);
    assert_eq!(stages.source.counter, 0);
    assert_eq!(stages.trigger.interval_nanos, ONE_SECOND_NANOS);
    assert_eq!(stages.transform.counter_metric, counter.id);
    assert_eq!(stages.transform.diff_metric, diff);
    assert!(stages.output_blocking);
}

#[test]
fn my_plugin_registration_plan() {
    let spec = MyPlugin::metric_spec();
    assert_eq!(spec.name, "random_byte");
    assert_eq!(spec.unit, Unit::Byte);
    let mut plugin = MyPlugin::init(Config { poll_interval_nanos: 30 });
    let metric = plugin_example::metrics::TypedMetricId {
        id: plugin_example::metrics::RawMetricId { id: 2 },
        value_type: MetricType::U64,
    };
    plugin.record_metric(metric);
    assert_eq!(plugin.metrics.unwrap().a_metric, metric);
    let (source, trigger) = plugin.stages(metric);
    assert_eq!(source.byte_metric, metric);
    assert_eq!(source.pending, None);
    assert_eq!(trigger.interval_nanos, 30);
}
