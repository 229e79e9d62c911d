use vstd::prelude::*;
use crate::example::{ExampleOutput, ExampleSource, ExampleTransform, MyPluginSource};
use crate::metrics::{
    has_name, MetricDefinition, MetricError, MetricType, RawMetricId, TypedMetricId, Unit,
};
use crate::pipeline::{Pipeline, StageError};
use crate::scheduler::{sat_add, TriggerSpec, TriggerState};
use crate::stages::{Output, Transform};

verus! {

/// One second, in nanoseconds.
pub const ONE_SECOND_NANOS: u64 = 1_000_000_000;

/// Why a plugin's start failed.
#[derive(Clone, Copy, Debug, PartialEq, Eq, Structural)]
pub enum StartError {
    Metric(MetricError),
    Stage(StageError),
}

pub open spec fn counter_name() -> Seq<char> {
    "example_source_call_counter"@
}

pub open spec fn counter_description() -> Seq<char> {
    "number of times the example source has been called"@
}

pub open spec fn diff_name() -> Seq<char> {
    "example_source_call_diff"@
}

pub open spec fn diff_description() -> Seq<char> {
    "number of times the example source has been called since the previous measurement"@
}

/// True when `d` describes the metric `name` of the given type, unit and description.
pub open spec fn defines(
    d: MetricDefinition,
    name: Seq<char>,
    value_type: MetricType,
    unit: Unit,
    description: Seq<char>,
) -> bool {
    &&& d.name@ == name
    &&& d.value_type == value_type
    &&& d.unit == unit
    &&& d.description@ == description
}

/// The schedule entry of a source added at `now` with the given interval.
pub open spec fn new_trigger(interval: u64, now: u64, stopping: bool) -> TriggerState {
    TriggerState {
        interval,
        next_due: sat_add(now, interval),
        in_flight: false,
        removed: stopping,
    }
}

/// A metric that a plugin registers at its start.
pub struct MetricSpec {
    pub name: String,
    pub value_type: MetricType,
    pub unit: Unit,
    pub description: String,
}

/// The stages that `ExamplePlugin` adds once its two metrics are registered.
pub struct ExampleStages {
    pub source: ExampleSource,
    pub trigger: TriggerSpec,
    pub transform: ExampleTransform,
    pub output: ExampleOutput,
    /// Whether the output runs on an execution context of its own.
    pub output_blocking: bool,
}

/// A plugin that counts the polls of its source, derives the difference
/// between successive counts, and renders every point as a text line.
pub struct ExamplePlugin;

impl ExamplePlugin {
    pub fn name() -> (r: &'static str)
        ensures
            r@ == "example"@,
    {
        "example"
    }

    pub fn init() -> (r: ExamplePlugin) {
        ExamplePlugin
    }

    /// The two metrics, in the order of their registration: the counter,
    /// then the difference.
    pub fn metric_specs() -> (r: (MetricSpec, MetricSpec))
        ensures
            r.0.name@ == counter_name(),
            r.0.value_type == MetricType::U64,
            r.0.unit == Unit::Unity,
            r.0.description@ == counter_description(),
            r.1.name@ == diff_name(),
            r.1.value_type == MetricType::U64,
            r.1.unit == Unit::Unity,
            r.1.description@ == diff_description(),
    {
        (
            MetricSpec {
                name: "example_source_call_counter".to_owned(),
                value_type: MetricType::U64,
                unit: Unit::Unity,
                description: "number of times the example source has been called".to_owned(),
            },
            MetricSpec {
                name: "example_source_call_diff".to_owned(),
                value_type: MetricType::U64,
                unit: Unit::Unity,
                description:
                    "number of times the example source has been called since the previous measurement".to_owned(),
            },
        )
    }

    /// The stages to add, given the ids that the two metrics received: the
    /// counter source polled every second, the difference transform, and a
    /// blocking text output.
    pub fn stages(counter: TypedMetricId, diff: TypedMetricId) -> (r: ExampleStages)
        ensures
            r.source == (ExampleSource { metric: counter, counter: 0 }),
            r.trigger == (TriggerSpec { interval_nanos: ONE_SECOND_NANOS }),
            r.transform == (ExampleTransform {
                counter_metric: counter.id,
                previous_counter: None,
                diff_metric: diff,
            }),
            r.output.lines@.len() == 0,
            r.output_blocking,
    {
        ExampleStages {
            source: ExampleSource::new(counter),
            trigger: TriggerSpec::at_interval(ONE_SECOND_NANOS),
            transform: ExampleTransform::new(counter.untyped_id(), diff),
            output: ExampleOutput::new(),
            output_blocking: true,
        }
    }

    /// Registers the counter and difference metrics, then the source (polled
    /// every second from `now`), the difference transform and a blocking text
    /// output. On a failure nothing but the metrics already registered stays.
    pub fn start(
        &mut self,
        p: &mut Pipeline<ExampleSource, ExampleTransform, ExampleOutput>,
        now: u64,
    ) -> (r: Result<(), StartError>)
        requires
            old(p).wf(),
            old(p).registry().defs().len() + 3 < u64::MAX,
        ensures
            final(p).wf(),
            final(p).starting() == old(p).starting(),
            final(p).registry().defs().len() >= old(p).registry().defs().len(),
            final(p).registry().defs().take(old(p).registry().defs().len() as int) == old(
                p,
            ).registry().defs(),
            r is Err ==> final(p).same_stages(&*old(p)),
            !old(p).starting() ==> r == Err::<(), StartError>(
                StartError::Metric(MetricError::RegistrationClosed),
            ) && final(p).registry().defs() == old(p).registry().defs(),
            old(p).starting() && has_name(old(p).registry().defs(), counter_name()) ==> r == Err::<
                (),
                StartError,
            >(StartError::Metric(MetricError::DuplicateName)) && final(p).registry().defs() == old(
                p,
            ).registry().defs(),
            old(p).starting() && !has_name(old(p).registry().defs(), counter_name()) && has_name(
                old(p).registry().defs(),
                diff_name(),
            ) ==> {
                let n = old(p).registry().defs().len() as int;
                &&& r == Err::<(), StartError>(StartError::Metric(MetricError::DuplicateName))
                &&& final(p).registry().defs().len() == n + 1
                &&& defines(
                    final(p).registry().defs()[n],
                    counter_name(),
                    MetricType::U64,
                    Unit::Unity,
                    counter_description(),
                )
            },
            old(p).starting() && !has_name(old(p).registry().defs(), counter_name()) && !has_name(
                old(p).registry().defs(),
                diff_name(),
            ) ==> {
                let n = old(p).registry().defs().len() as int;
                let counter = TypedMetricId {
                    id: RawMetricId { id: n as u64 },
                    value_type: MetricType::U64,
                };
                let diff = TypedMetricId {
                    id: RawMetricId { id: (n + 1) as u64 },
                    value_type: MetricType::U64,
                };
                let k = old(p).outputs().len() as int;
                &&& r is Ok
                &&& final(p).registry().defs().len() == n + 2
                &&& defines(
                    final(p).registry().defs()[n],
                    counter_name(),
                    MetricType::U64,
                    Unit::Unity,
                    counter_description(),
                )
                &&& defines(
                    final(p).registry().defs()[n + 1],
                    diff_name(),
                    MetricType::U64,
                    Unit::Unity,
                    diff_description(),
                )
                &&& final(p).sources() == old(p).sources().push(
                    ExampleSource { metric: counter, counter: 0 },
                )
                &&& final(p).schedule().is_stopping() == old(p).schedule().is_stopping()
                &&& final(p).schedule()@ == old(p).schedule()@.push(
                    new_trigger(ONE_SECOND_NANOS, now, old(p).schedule().is_stopping()),
                )
                &&& final(p).transforms() == old(p).transforms().push(
                    ExampleTransform {
                        counter_metric: counter.id,
                        previous_counter: None,
                        diff_metric: diff,
                    },
                )
                &&& final(p).outputs().len() == k + 1
                &&& final(p).outputs().take(k) == old(p).outputs()
                &&& final(p).outputs()[k].lines@.len() == 0
                &&& final(p).blocking() == old(p).blocking().push(true)
            },
    {
        proof {
            reveal_strlit("example_source_call_counter");
            reveal_strlit("example_source_call_diff");
            assert(counter_name().len() != diff_name().len());
        }
        let ghost n = old(p).registry().defs().len() as int;
        let (counter_spec, diff_spec) = Self::metric_specs();
        let counter_metric = match p.create_metric(
            counter_spec.name.as_str(),
            counter_spec.value_type,
            counter_spec.unit,
            counter_spec.description.as_str(),
        ) {
            Ok(m) => m,
            Err(e) => {
                assert(old(p).registry().defs().take(n) =~= old(p).registry().defs());
                return Err(StartError::Metric(e));
            },
        };
        let ghost d1 = p.registry().defs();
        proof {
            assert(!has_name(d1, diff_name()) <== !has_name(old(p).registry().defs(), diff_name()))
                by {
                if !has_name(old(p).registry().defs(), diff_name()) {
                    assert forall|i: int| 0 <= i < d1.len() implies #[trigger] d1[i].name@
                        != diff_name() by {
                        if i < n {
                            assert(d1.take(n)[i] == d1[i]);
                        }
                    }
                }
            }
            assert(has_name(d1, diff_name()) <== has_name(old(p).registry().defs(), diff_name()))
                by {
                if has_name(old(p).registry().defs(), diff_name()) {
                    let i = choose|i: int|
                        0 <= i < n && #[trigger] old(p).registry().defs()[i].name@ == diff_name();
                    assert(d1.take(n)[i] == d1[i]);
                }
            }
        }
        let diff_metric = match p.create_metric(
            diff_spec.name.as_str(),
            diff_spec.value_type,
            diff_spec.unit,
            diff_spec.description.as_str(),
        ) {
            Ok(m) => m,
            Err(e) => {
                proof {
                    assert(d1.take(n) =~= old(p).registry().defs());
                }
                return Err(StartError::Metric(e));
            },
        };
        proof {
            let d2 = p.registry().defs();
            assert(d2[n] == d2.take(n + 1)[n]);
            assert(d2.take(n) =~= d1.take(n));
        }
        let stages = Self::stages(counter_metric, diff_metric);
        match p.add_source(stages.source, stages.trigger, now) {
            Ok(_) => {},
            Err(e) => {
                return Err(StartError::Stage(e));
            },
        }
        match p.add_transform(stages.transform) {
            Ok(_) => {},
            Err(e) => {
                return Err(StartError::Stage(e));
            },
        }
        match p.add_blocking_output(stages.output) {
            Ok(_) => {},
            Err(e) => {
                return Err(StartError::Stage(e));
            },
        }
        proof {
            let k = old(p).outputs().len() as int;
            assert(p.outputs().take(k) =~= old(p).outputs());
            assert(p.blocking() == old(p).blocking().push(true));
        }
        Ok(())
    }
}

/// The settings of `MyPlugin`.
#[derive(Clone, Copy, Debug, PartialEq, Eq, Structural)]
pub struct Config {
    /// The time between two polls of the source, in nanoseconds.
    pub poll_interval_nanos: u64,
}

impl Default for Config {
    fn default() -> (r: Config)
        ensures
            r.poll_interval_nanos == ONE_SECOND_NANOS,
    {
        Config { poll_interval_nanos: ONE_SECOND_NANOS }
    }
}

/// The metrics that `MyPlugin` registers.
#[derive(Clone, Copy, Debug, PartialEq, Eq, Structural)]
pub struct Metrics {
    pub a_metric: TypedMetricId,
}

/// A plugin whose source reports a random number, supplied by the host, in
/// the metric `random_byte`.
pub struct MyPlugin {
    pub config: Config,
    pub metrics: Option<Metrics>,
}

pub open spec fn random_byte_name() -> Seq<char> {
    "random_byte"@
}

impl MyPlugin {
    pub fn name() -> (r: &'static str)
        ensures
            r@ == "MyPlugin"@,
    {
        "MyPlugin"
    }

    pub fn init(config: Config) -> (r: MyPlugin)
        ensures
            r.config == config,
            r.metrics is None,
    {
        MyPlugin { config, metrics: None }
    }

    pub open spec fn random_byte_description() -> Seq<char> {
        "Byte randomly get"@
    }

    /// The metric that the plugin registers.
    pub fn metric_spec() -> (r: MetricSpec)
        ensures
            r.name@ == random_byte_name(),
            r.value_type == MetricType::U64,
            r.unit == Unit::Byte,
            r.description@ == Self::random_byte_description(),
    {
        MetricSpec {
            name: "random_byte".to_owned(),
            value_type: MetricType::U64,
            unit: Unit::Byte,
            description: "Byte randomly get".to_owned(),
        }
    }

    /// Remembers the id that the metric received.
    pub fn record_metric(&mut self, metric: TypedMetricId)
        ensures
            final(self).config == old(self).config,
            final(self).metrics == Some(Metrics { a_metric: metric }),
    {
        self.metrics = Some(Metrics { a_metric: metric });
    }

    /// The source to add, given the id that the metric received, and its
    /// trigger: the configured interval.
    pub fn stages(&self, metric: TypedMetricId) -> (r: (MyPluginSource, TriggerSpec))
        ensures
            r.0 == (MyPluginSource { byte_metric: metric, pending: None }),
            r.1 == (TriggerSpec { interval_nanos: self.config.poll_interval_nanos }),
    {
        (MyPluginSource::new(metric), TriggerSpec::at_interval(self.config.poll_interval_nanos))
    }

    /// Registers the metric `random_byte` and a source that reports it at the
    /// configured interval from `now`. On a failure the plugin, the stages and
    /// the registry stay as they were.
    pub fn start<T: Transform, O: Output>(
        &mut self,
        p: &mut Pipeline<MyPluginSource, T, O>,
        now: u64,
    ) -> (r: Result<(), StartError>)
        requires
            old(p).wf(),
            old(p).registry().defs().len() + 1 < u64::MAX,
        ensures
            final(p).wf(),
            final(self).config == old(self).config,
            final(p).starting() == old(p).starting(),
            r is Err ==> final(p).same_stages(&*old(p)) && final(self).metrics == old(self).metrics
                && final(p).registry().defs() == old(p).registry().defs(),
            !old(p).starting() ==> r == Err::<(), StartError>(
                StartError::Metric(MetricError::RegistrationClosed),
            ),
            old(p).starting() && has_name(old(p).registry().defs(), random_byte_name()) ==> r
                == Err::<(), StartError>(StartError::Metric(MetricError::DuplicateName)),
            old(p).starting() && !has_name(old(p).registry().defs(), random_byte_name()) ==> {
                let n = old(p).registry().defs().len() as int;
                let metric = TypedMetricId {
                    id: RawMetricId { id: n as u64 },
                    value_type: MetricType::U64,
                };
                &&& r is Ok
                &&& final(self).metrics == Some(Metrics { a_metric: metric })
                &&& final(p).registry().defs().len() == n + 1
                &&& final(p).registry().defs().take(n) == old(p).registry().defs()
                &&& defines(
                    final(p).registry().defs()[n],
                    random_byte_name(),
                    MetricType::U64,
                    Unit::Byte,
                    Self::random_byte_description(),
                )
                &&& final(p).sources() == old(p).sources().push(
                    MyPluginSource { byte_metric: metric, pending: None },
                )
                &&& final(p).schedule().is_stopping() == old(p).schedule().is_stopping()
                &&& final(p).schedule()@ == old(p).schedule()@.push(
                    new_trigger(
                        old(self).config.poll_interval_nanos,
                        now,
                        old(p).schedule().is_stopping(),
                    ),
                )
                &&& final(p).transforms() == old(p).transforms()
                &&& final(p).outputs() == old(p).outputs()
                &&& final(p).blocking() == old(p).blocking()
            },
    {
        let spec = Self::metric_spec();
        let byte_metric = match p.create_metric(
            spec.name.as_str(),
            spec.value_type,
            spec.unit,
            spec.description.as_str(),
        ) {
            Ok(m) => m,
            Err(e) => {
                return Err(StartError::Metric(e));
            },
        };
        self.record_metric(byte_metric);
        let (source, trigger) = self.stages(byte_metric);
        match p.add_source(source, trigger, now) {
            Ok(_) => {},
            Err(e) => {
                return Err(StartError::Stage(e));
            },
        }
        Ok(())
    }
}

} // verus!
