//! The data model: measurements, baselines, samples and calculations.
//!
//! Measured quantities have the type parameter `T`. The library never looks
//! inside a quantity: it carries quantities from measurements into samples and
//! calculations, and leaves arithmetic on them to the functions that its
//! caller hands in.

use crate::exceptions::{CalculateError, CalculateErrorView};
use crate::metric::{Metric, MetricView};
use crate::version::Version;
use vstd::prelude::*;

verus! {

/// An instant: seconds since the Unix epoch, and the nanoseconds within that
/// second.
#[derive(Debug, Copy, Clone, PartialEq, Eq, Structural, Hash)]
pub struct Timestamp {
    pub secs: i64,
    pub nanos: u32,
}

/// A command to benchmark: a name for the measurement, a preparation command
/// that runs before each timed run and is not counted, and the command that
/// is timed.
#[derive(Debug, Copy, Clone)]
pub struct HyperfineCmd<'a> {
    pub name: &'a str,
    pub prepare: &'a str,
    pub cmd: &'a str,
}

/// The statistics of one benchmarked command, as the benchmarking tool
/// reports them.
#[derive(Debug, Clone, PartialEq)]
pub struct Measurement<T> {
    pub command: String,
    pub mean: T,
    pub stddev: T,
    pub median: T,
    pub user: T,
    pub system: T,
    pub min: T,
    pub max: T,
    pub times: Vec<T>,
}

/// One report of the benchmarking tool.
#[derive(Debug, Clone, PartialEq)]
pub struct Measurements<T> {
    pub results: Vec<Measurement<T>>,
}

/// The statistical model of one metric in a baseline.
#[derive(Debug, Clone, PartialEq)]
pub struct MetricModel<T> {
    pub metric: Metric,
    pub ts: Timestamp,
    pub measurement: Measurement<T>,
}

/// The models of all metrics measured for a released version.
#[derive(Debug, Clone, PartialEq)]
pub struct Baseline<T> {
    pub version: Version,
    pub models: Vec<MetricModel<T>>,
}

/// One freshly observed value of a metric.
#[derive(Debug, Clone, PartialEq)]
pub struct Sample<T> {
    pub metric: Metric,
    pub value: T,
    pub ts: Timestamp,
}

/// The result of holding one sample against the model of its metric. It
/// carries the version of the baseline and the multiplier used, so that it can
/// be checked from the record alone.
#[derive(Debug, Clone, PartialEq)]
pub struct Calculation<T> {
    pub version: Version,
    pub metric: Metric,
    pub regression: bool,
    pub ts: Timestamp,
    pub sigma: T,
    pub mean: T,
    pub stddev: T,
    pub threshold: T,
}

/// A `Measurement` with its text and its list as sequences.
pub struct MeasurementView<T> {
    pub command: Seq<char>,
    pub mean: T,
    pub stddev: T,
    pub median: T,
    pub user: T,
    pub system: T,
    pub min: T,
    pub max: T,
    pub times: Seq<T>,
}

/// A `Measurements` over views.
pub struct MeasurementsView<T> {
    pub results: Seq<MeasurementView<T>>,
}

/// A `MetricModel` over views.
pub struct MetricModelView<T> {
    pub metric: MetricView,
    pub ts: Timestamp,
    pub measurement: MeasurementView<T>,
}

/// A `Baseline` over views.
pub struct BaselineView<T> {
    pub version: Version,
    pub models: Seq<MetricModelView<T>>,
}

/// A `Sample` over views.
pub struct SampleView<T> {
    pub metric: MetricView,
    pub value: T,
    pub ts: Timestamp,
}

/// A `Calculation` over views.
pub struct CalculationView<T> {
    pub version: Version,
    pub metric: MetricView,
    pub regression: bool,
    pub ts: Timestamp,
    pub sigma: T,
    pub mean: T,
    pub stddev: T,
    pub threshold: T,
}

impl<T> View for Measurement<T> {
    type V = MeasurementView<T>;

    open spec fn view(&self) -> MeasurementView<T> {
        MeasurementView {
            command: self.command@,
            mean: self.mean,
            stddev: self.stddev,
            median: self.median,
            user: self.user,
            system: self.system,
            min: self.min,
            max: self.max,
            times: self.times@,
        }
    }
}

impl<T> View for Measurements<T> {
    type V = MeasurementsView<T>;

    open spec fn view(&self) -> MeasurementsView<T> {
        MeasurementsView { results: Seq::new(self.results.len() as nat, |i: int| self.results[i]@) }
    }
}

impl<T> View for MetricModel<T> {
    type V = MetricModelView<T>;

    open spec fn view(&self) -> MetricModelView<T> {
        MetricModelView { metric: self.metric@, ts: self.ts, measurement: self.measurement@ }
    }
}

impl<T> View for Baseline<T> {
    type V = BaselineView<T>;

    open spec fn view(&self) -> BaselineView<T> {
        BaselineView { version: self.version, models: model_views(self.models@) }
    }
}

impl<T> View for Sample<T> {
    type V = SampleView<T>;

    open spec fn view(&self) -> SampleView<T> {
        SampleView { metric: self.metric@, value: self.value, ts: self.ts }
    }
}

impl<T> View for Calculation<T> {
    type V = CalculationView<T>;

    open spec fn view(&self) -> CalculationView<T> {
        CalculationView {
            version: self.version,
            metric: self.metric@,
            regression: self.regression,
            ts: self.ts,
            sigma: self.sigma,
            mean: self.mean,
            stddev: self.stddev,
            threshold: self.threshold,
        }
    }
}

/// The views of a list of models.
pub open spec fn model_views<T>(models: Seq<MetricModel<T>>) -> Seq<MetricModelView<T>> {
    Seq::new(models.len(), |i: int| models[i]@)
}

/// The views of a list of samples.
pub open spec fn sample_views<T>(samples: Seq<Sample<T>>) -> Seq<SampleView<T>> {
    Seq::new(samples.len(), |i: int| samples[i]@)
}

/// The views of a list of calculations.
pub open spec fn calculation_views<T>(calculations: Seq<Calculation<T>>) -> Seq<
    CalculationView<T>,
> {
    Seq::new(calculations.len(), |i: int| calculations[i]@)
}

/// The views of a list of baselines.
pub open spec fn baseline_views<T>(baselines: Seq<Baseline<T>>) -> Seq<BaselineView<T>> {
    Seq::new(baselines.len(), |i: int| baselines[i]@)
}

impl<T> BaselineView<T> {
    /// No two models of the baseline are models of the same metric.
    pub open spec fn has_unique_metrics(self) -> bool {
        forall|i: int, j: int|
            0 <= i < j < self.models.len() ==> (#[trigger] self.models[i]).metric != (
            #[trigger] self.models[j]).metric
    }
}

impl<T> Baseline<T> {
    /// Whether no two models of the baseline are models of the same metric.
    pub fn has_unique_metrics(&self) -> (b: bool)
        ensures
            b == self@.has_unique_metrics(),
    {
        let n = self.models.len();
        let mut j: usize = 0;
        while j < n
            invariant
                n == self.models.len(),
                j <= n,
                forall|a: int, b: int|
                    0 <= a < b < j ==> (#[trigger] self@.models[a]).metric != (
                    #[trigger] self@.models[b]).metric,
            decreases n - j,
        {
            let mut i: usize = 0;
            while i < j
                invariant
                    n == self.models.len(),
                    i <= j < n,
                    forall|a: int|
                        0 <= a < i ==> (#[trigger] self@.models[a]).metric != self@.models[j as int].metric,
                decreases j - i,
            {
                if self.models[i].metric == self.models[j].metric {
                    assert(self@.models[i as int].metric == self@.models[j as int].metric);
                    return false;
                }
                i += 1;
            }
            j += 1;
        }
        true
    }
}

impl<T: Copy> Measurement<T> {
    /// A copy of the measurement.
    pub fn copied(&self) -> (r: Measurement<T>)
        ensures
            r@ == self@,
    {
        let mut times: Vec<T> = Vec::new();
        let mut i: usize = 0;
        while i < self.times.len()
            invariant
                i <= self.times.len(),
                times@ == self.times@.take(i as int),
            decreases self.times.len() - i,
        {
            times.push(self.times[i]);
            assert(times@ =~= self.times@.take(i + 1));
            i += 1;
        }
        assert(times@ =~= self.times@);
        Measurement {
            command: self.command.clone(),
            mean: self.mean,
            stddev: self.stddev,
            median: self.median,
            user: self.user,
            system: self.system,
            min: self.min,
            max: self.max,
            times: times,
        }
    }
}

impl<T: Copy> Sample<T> {
    /// The sample that a measurement of a single timed run stands for: its
    /// value is that run's time. A measurement of no run or of several is
    /// rejected with `MeasurementArityError`, which carries the number of
    /// runs found.
    pub fn from_measurement(metric: Metric, ts: Timestamp, measurement: &Measurement<T>) -> (r:
        Result<Sample<T>, CalculateError>)
        ensures
            match r {
                Ok(sample) => measurement.times.len() == 1 && sample@ == (SampleView {
                    metric: metric@,
                    value: measurement.times[0],
                    ts: ts,
                }),
                Err(e) => measurement.times.len() != 1 && e@
                    == CalculateErrorView::MeasurementArityError(measurement.times.len()),
            },
    {
        if measurement.times.len() == 1 {
            Ok(Sample { metric: metric, value: measurement.times[0], ts: ts })
        } else {
            Err(CalculateError::MeasurementArityError(measurement.times.len()))
        }
    }
}

impl<T> CalculationView<T> {
    /// This calculation records a verdict on `sample`, which was held against
    /// `model` of the baseline of `version` with the multiplier `sigma`: the
    /// threshold came out as `threshold`, and `regression` says whether the
    /// sample lies above it.
    pub open spec fn records(
        self,
        version: Version,
        model: MetricModelView<T>,
        sample: SampleView<T>,
        sigma: T,
        threshold: T,
        regression: bool,
    ) -> bool {
        self == (CalculationView {
            version: version,
            metric: model.metric,
            regression: regression,
            ts: sample.ts,
            sigma: sigma,
            mean: model.measurement.mean,
            stddev: model.measurement.stddev,
            threshold: threshold,
        })
    }
}

} // verus!
