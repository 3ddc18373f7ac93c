//! What is decided around a run of the benchmarking tool: which commands to
//! measure in which projects, how the tool is called, whether its exit is
//! accepted, and what its reports turn into.
//!
//! Running the tool and reading its reports is left to the caller, who hands
//! in what was read: each report with the stem of its file name.

use crate::exceptions::{CalculateError, CalculateErrorView};
use crate::metric::{Metric, MetricView};
use crate::text::{chars_of, decimal, decimal_string};
use crate::types::{
    Baseline, Calculation, HyperfineCmd, Measurements, MeasurementsView, MetricModel,
    MetricModelView, Sample, SampleView, Timestamp,
};
use crate::version::Version;
use vstd::prelude::*;
use vstd::string::StringExecFns;

verus! {

/// The number of timed runs that make one sample.
pub const SAMPLE_RUNS: i32 = 1;

/// The number of timed runs that make one model of a baseline.
pub const MODEL_RUNS: i32 = 20;

/// The commands that are measured unless the caller names others.
pub fn default_metrics() -> (metrics: Vec<HyperfineCmd<'static>>)
    ensures
        metrics.len() == 1,
        metrics[0].name@ == "parse"@,
        metrics[0].prepare@ == "rm -rf target/"@,
        metrics[0].cmd@ == "dbt parse --no-version-check"@,
{
    let mut metrics: Vec<HyperfineCmd<'static>> = Vec::new();
    metrics.push(
        HyperfineCmd { name: "parse", prepare: "rm -rf target/", cmd: "dbt parse --no-version-check" },
    );
    metrics
}

/// The views of a list of texts.
pub open spec fn texts(list: Seq<String>) -> Seq<Seq<char>> {
    Seq::new(list.len(), |i: int| list[i]@)
}

/// A project, as the path of its directory and its name, over views.
pub open spec fn project_views(projects: Seq<(String, String)>) -> Seq<(Seq<char>, Seq<char>)> {
    Seq::new(projects.len(), |i: int| (projects[i].0@, projects[i].1@))
}

/// A command to measure in a project, over views.
pub open spec fn job_views<'a>(jobs: Seq<(String, String, HyperfineCmd<'a>)>) -> Seq<
    (Seq<char>, Seq<char>, HyperfineCmd<'a>),
> {
    Seq::new(jobs.len(), |i: int| (jobs[i].0@, jobs[i].1@, jobs[i].2))
}

/// Each of `metrics` in the project `project`, in the order of `metrics`.
pub open spec fn jobs_in<'a>(project: (Seq<char>, Seq<char>), metrics: Seq<HyperfineCmd<'a>>) -> Seq<
    (Seq<char>, Seq<char>, HyperfineCmd<'a>),
> {
    Seq::new(metrics.len(), |j: int| (project.0, project.1, metrics[j]))
}

/// Each of `metrics` in each of `projects`: all metrics in the first project,
/// then all in the second, and so on.
pub open spec fn jobs_of<'a>(
    projects: Seq<(Seq<char>, Seq<char>)>,
    metrics: Seq<HyperfineCmd<'a>>,
) -> Seq<(Seq<char>, Seq<char>, HyperfineCmd<'a>)>
    decreases projects.len(),
{
    if projects.len() == 0 {
        Seq::empty()
    } else {
        jobs_of(projects.drop_last(), metrics) + jobs_in(projects.last(), metrics)
    }
}

/// Pairs each project, given by the path of its directory and its name, with
/// each command to measure.
pub fn project_metric_pairs<'a>(
    projects: &Vec<(String, String)>,
    metrics: &Vec<HyperfineCmd<'a>>,
) -> (jobs: Vec<(String, String, HyperfineCmd<'a>)>)
    ensures
        job_views(jobs@) == jobs_of(project_views(projects@), metrics@),
{
    let ghost all = project_views(projects@);
    let mut jobs: Vec<(String, String, HyperfineCmd<'a>)> = Vec::new();
    let mut i: usize = 0;
    assert(job_views(jobs@) =~= jobs_of(all.take(0), metrics@));
    while i < projects.len()
        invariant
            i <= projects.len(),
            all == project_views(projects@),
            job_views(jobs@) == jobs_of(all.take(i as int), metrics@),
        decreases projects.len() - i,
    {
        let ghost before = job_views(jobs@);
        let ghost project = all[i as int];
        let mut j: usize = 0;
        assert(job_views(jobs@) =~= before + jobs_in(project, metrics@.take(0)));
        while j < metrics.len()
            invariant
                j <= metrics.len(),
                i < projects.len(),
                project == (projects[i as int].0@, projects[i as int].1@),
                job_views(jobs@) == before + jobs_in(project, metrics@.take(j as int)),
            decreases metrics.len() - j,
        {
            let ghost old_jobs = jobs@;
            jobs.push((projects[i].0.clone(), projects[i].1.clone(), metrics[j]));
            proof {
                let row = jobs_in(project, metrics@.take(j as int));
                let next = jobs_in(project, metrics@.take(j + 1));
                assert(next =~= row.push((project.0, project.1, metrics@[j as int])));
                assert(job_views(jobs@) =~= job_views(old_jobs).push(
                    (project.0, project.1, metrics@[j as int]),
                ));
                assert(job_views(jobs@) =~= before + next);
            }
            j += 1;
        }
        proof {
            assert(metrics@.take(j as int) =~= metrics@);
            assert(all.take(i + 1).drop_last() =~= all.take(i as int));
            assert(all.take(i + 1).last() == project);
        }
        i += 1;
    }
    assert(all.take(i as int) =~= all);
    jobs
}

/// The command that is timed for a metric: the metric's command, pointed at
/// the shared profiles directory.
pub fn benchmark_command(cmd: &str) -> (r: String)
    ensures
        r@ == cmd@ + " --profiles-dir ../../project_config/"@,
{
    String::from_str(cmd).concat(" --profiles-dir ../../project_config/")
}

/// The name of the file that the report on `metric` in the project
/// `project_name` goes to. It holds the identity of the scenario, which is
/// read back from it.
pub fn report_filename(metric: &HyperfineCmd, project_name: &str) -> (r: String)
    ensures
        r@ == (MetricView { name: metric.name@, project_name: project_name@ }).filename(),
{
    let identity = Metric {
        name: String::from_str(metric.name),
        project_name: String::from_str(project_name),
    };
    identity.filename()
}

/// The arguments of one call of the benchmarking tool.
pub open spec fn hyperfine_args_spec(
    command: Seq<char>,
    prep: Seq<char>,
    runs: int,
    output_file: Seq<char>,
) -> Seq<Seq<char>> {
    seq![
        "--warmup"@,
        "1"@,
        "--min-runs"@,
        decimal(runs),
        "--max-runs"@,
        decimal(runs),
        "--prepare"@,
        prep,
        command,
        "--export-json"@,
        output_file,
        "--show-output"@,
    ]
}

/// The arguments with which the benchmarking tool is called to time
/// `command`: one warm-up run that is not counted, then exactly `runs` timed
/// runs, each after the preparation command `prep`; the report goes to
/// `output_file` as JSON, and the output of the command is shown.
pub fn hyperfine_args(command: &str, prep: &str, runs: i32, output_file: &str) -> (args: Vec<
    String,
>)
    ensures
        texts(args@) == hyperfine_args_spec(command@, prep@, runs as int, output_file@),
{
    let mut args: Vec<String> = Vec::new();
    args.push(String::from_str("--warmup"));
    args.push(String::from_str("1"));
    args.push(String::from_str("--min-runs"));
    args.push(decimal_string(runs as i64));
    args.push(String::from_str("--max-runs"));
    args.push(decimal_string(runs as i64));
    args.push(String::from_str("--prepare"));
    args.push(String::from_str(prep));
    args.push(String::from_str(command));
    args.push(String::from_str("--export-json"));
    args.push(String::from_str(output_file));
    args.push(String::from_str("--show-output"));
    assert(texts(args@) =~= hyperfine_args_spec(command@, prep@, runs as int, output_file@));
    args
}

/// Whether the exit of the benchmarking tool is accepted: a non-zero exit code
/// is the error `HyperfineNonZeroExitCode`, which carries the code. An exit
/// without a code is accepted.
pub fn check_exit_code(code: Option<i32>) -> (r: Result<(), CalculateError>)
    ensures
        match code {
            Some(c) if c != 0 => r matches Err(e) && e@
                == CalculateErrorView::HyperfineNonZeroExitCode(c),
            _ => r is Ok,
        },
{
    match code {
        Some(c) => {
            if c != 0 {
                Err(CalculateError::HyperfineNonZeroExitCode(c))
            } else {
                Ok(())
            }
        },
        None => Ok(()),
    }
}

/// `s` ends in `tail`.
pub open spec fn ends_with(s: Seq<char>, tail: Seq<char>) -> bool {
    s.len() >= tail.len() && s.subrange(s.len() - tail.len(), s.len() as int) == tail
}

/// Whether a file with the extension `extension` is read as a report: its
/// extension ends in `json`.
pub fn extension_is_json(extension: &str) -> (b: bool)
    ensures
        b == ends_with(extension@, "json"@),
{
    proof {
        reveal_strlit("json");
    }
    let chars = chars_of(extension);
    let n = chars.len();
    if n < 4 {
        return false;
    }
    let b = chars[n - 4] == 'j' && chars[n - 3] == 's' && chars[n - 2] == 'o' && chars[n - 1]
        == 'n';
    proof {
        let tail = extension@.subrange(n - 4, n as int);
        assert(tail[0] == chars@[n - 4]);
        assert(tail[1] == chars@[n - 3]);
        assert(tail[2] == chars@[n - 2]);
        assert(tail[3] == chars@[n - 1]);
        if b {
            assert(tail =~= "json"@);
        }
    }
    b
}

/// The sample that a report stands for. The stem of the report's file name
/// gives the metric; the first measurement of the report gives the value, and
/// has to be a measurement of a single timed run.
pub open spec fn sample_of<T>(stem: Seq<char>, report: MeasurementsView<T>, ts: Timestamp) -> Result<
    SampleView<T>,
    CalculateErrorView,
> {
    match MetricView::parse(stem) {
        None => Err(CalculateErrorView::MetricParseFail(stem)),
        Some(metric) => {
            if report.results.len() == 0 {
                Err(CalculateErrorView::MeasurementArityError(0))
            } else if report.results[0].times.len() != 1 {
                Err(
                    CalculateErrorView::MeasurementArityError(
                        report.results[0].times.len() as usize,
                    ),
                )
            } else {
                Ok(SampleView { metric: metric, value: report.results[0].times[0], ts: ts })
            }
        },
    }
}

/// The model that a report stands for. The stem of the report's file name
/// gives the metric; the first measurement of the report is the model.
pub open spec fn model_of<T>(stem: Seq<char>, report: MeasurementsView<T>, ts: Timestamp) -> Result<
    MetricModelView<T>,
    CalculateErrorView,
> {
    match MetricView::parse(stem) {
        None => Err(CalculateErrorView::MetricParseFail(stem)),
        Some(metric) => {
            if report.results.len() == 0 {
                Err(CalculateErrorView::MeasurementArityError(0))
            } else {
                Ok(MetricModelView { metric: metric, ts: ts, measurement: report.results[0] })
            }
        },
    }
}

/// Turns one report into a sample.
fn sample_from_report<T: Copy>(stem: &str, report: &Measurements<T>, ts: Timestamp) -> (r: Result<
    Sample<T>,
    CalculateError,
>)
    ensures
        match r {
            Ok(sample) => sample_of(stem@, report@, ts) == Ok::<_, CalculateErrorView>(sample@),
            Err(e) => sample_of(stem@, report@, ts) == Err::<SampleView<T>, _>(e@),
        },
{
    let metric = match Metric::from_str(stem) {
        Ok(metric) => metric,
        Err(e) => {
            return Err(e);
        },
    };
    if report.results.len() == 0 {
        return Err(CalculateError::MeasurementArityError(0));
    }
    assert(report@.results[0] == report.results[0]@);
    Sample::from_measurement(metric, ts, &report.results[0])
}

/// Turns one report into a model.
fn model_from_report<T: Copy>(stem: &str, report: &Measurements<T>, ts: Timestamp) -> (r: Result<
    MetricModel<T>,
    CalculateError,
>)
    ensures
        match r {
            Ok(model) => model_of(stem@, report@, ts) == Ok::<_, CalculateErrorView>(model@),
            Err(e) => model_of(stem@, report@, ts) == Err::<MetricModelView<T>, _>(e@),
        },
{
    let metric = match Metric::from_str(stem) {
        Ok(metric) => metric,
        Err(e) => {
            return Err(e);
        },
    };
    if report.results.len() == 0 {
        return Err(CalculateError::MeasurementArityError(0));
    }
    assert(report@.results[0] == report.results[0]@);
    Ok(MetricModel { metric: metric, ts: ts, measurement: report.results[0].copied() })
}

/// Turns the reports of a sampling pass into samples, one for each report and
/// in their order, all with the timestamp `ts` of the pass. Each report comes
/// with the stem of its file name. The first report that stands for no sample
/// ends the pass with its error: `MetricParseFail` where the stem is no
/// identity of a metric, `MeasurementArityError` where the report is empty or
/// its first measurement is not of exactly one timed run.
pub fn take_samples<T: Copy>(reports: &[(String, Measurements<T>)], ts: Timestamp) -> (r: Result<
    Vec<Sample<T>>,
    CalculateError,
>)
    ensures
        match r {
            Ok(samples) => samples.len() == reports.len() && forall|i: int|
                0 <= i < reports.len() ==> sample_of(
                    reports[i].0@,
                    reports[i].1@,
                    ts,
                ) == Ok::<_, CalculateErrorView>((#[trigger] samples[i])@),
            Err(e) => exists|i: int|
                0 <= i < reports.len() && #[trigger] sample_of(reports[i].0@, reports[i].1@, ts)
                    == Err::<SampleView<T>, _>(e@) && forall|j: int|
                    0 <= j < i ==> (#[trigger] sample_of(reports[j].0@, reports[j].1@, ts)) is Ok,
        },
{
    let mut samples: Vec<Sample<T>> = Vec::new();
    let mut i: usize = 0;
    while i < reports.len()
        invariant
            i <= reports.len(),
            samples.len() == i,
            forall|j: int|
                0 <= j < i ==> sample_of(reports[j].0@, reports[j].1@, ts) == Ok::<
                    _,
                    CalculateErrorView,
                >((#[trigger] samples[j])@),
        decreases reports.len() - i,
    {
        match sample_from_report(reports[i].0.as_str(), &reports[i].1, ts) {
            Ok(sample) => {
                samples.push(sample);
            },
            Err(e) => {
                assert(sample_of(reports[i as int].0@, reports[i as int].1@, ts) == Err::<
                    SampleView<T>,
                    _,
                >(e@));
                assert forall|j: int| 0 <= j < i implies (#[trigger] sample_of(
                    reports[j].0@,
                    reports[j].1@,
                    ts,
                )) is Ok by {
                    assert(sample_of(reports[j].0@, reports[j].1@, ts) == Ok::<
                        _,
                        CalculateErrorView,
                    >(samples[j]@));
                }
                return Err(e);
            },
        }
        i += 1;
    }
    Ok(samples)
}

/// Builds the baseline of `version` from the reports of a modeling pass: one
/// model for each report and in their order, all with the timestamp `ts`.
/// Each report comes with the stem of its file name. The first report that
/// stands for no model ends the pass with its error: `MetricParseFail` where
/// the stem is no identity of a metric, `MeasurementArityError` where the
/// report is empty.
pub fn from_measurements<T: Copy>(
    version: Version,
    measurements: &[(String, Measurements<T>)],
    ts: Timestamp,
) -> (r: Result<Baseline<T>, CalculateError>)
    ensures
        match r {
            Ok(baseline) => baseline@.version == version && baseline@.models.len()
                == measurements.len() && forall|i: int|
                0 <= i < measurements.len() ==> model_of(
                    measurements[i].0@,
                    measurements[i].1@,
                    ts,
                ) == Ok::<_, CalculateErrorView>(#[trigger] baseline@.models[i]),
            Err(e) => exists|i: int|
                0 <= i < measurements.len() && #[trigger] model_of(
                    measurements[i].0@,
                    measurements[i].1@,
                    ts,
                ) == Err::<MetricModelView<T>, _>(e@) && forall|j: int|
                    0 <= j < i ==> (#[trigger] model_of(
                        measurements[j].0@,
                        measurements[j].1@,
                        ts,
                    )) is Ok,
        },
{
    let mut models: Vec<MetricModel<T>> = Vec::new();
    let mut i: usize = 0;
    while i < measurements.len()
        invariant
            i <= measurements.len(),
            models.len() == i,
            forall|j: int|
                0 <= j < i ==> model_of(measurements[j].0@, measurements[j].1@, ts) == Ok::<
                    _,
                    CalculateErrorView,
                >((#[trigger] models[j])@),
        decreases measurements.len() - i,
    {
        match model_from_report(measurements[i].0.as_str(), &measurements[i].1, ts) {
            Ok(model) => {
                models.push(model);
            },
            Err(e) => {
                assert(model_of(measurements[i as int].0@, measurements[i as int].1@, ts) == Err::<
                    MetricModelView<T>,
                    _,
                >(e@));
                assert forall|j: int| 0 <= j < i implies (#[trigger] model_of(
                    measurements[j].0@,
                    measurements[j].1@,
                    ts,
                )) is Ok by {
                    assert(model_of(measurements[j].0@, measurements[j].1@, ts) == Ok::<
                        _,
                        CalculateErrorView,
                    >(models[j]@));
                }
                return Err(e);
            },
        }
        i += 1;
    }
    let baseline = Baseline { version: version, models: models };
    assert forall|i: int| 0 <= i < measurements.len() implies model_of(
        measurements[i].0@,
        measurements[i].1@,
        ts,
    ) == Ok::<_, CalculateErrorView>(#[trigger] baseline@.models[i]) by {
        assert(baseline@.models[i] == models[i]@);
    }
    Ok(baseline)
}

/// The instant that names the file of the calculations: that of the first
/// calculation, or `now` where there is none.
pub open spec fn naming_instant<T>(calculations: Seq<Calculation<T>>, now: Timestamp) -> Timestamp {
    if calculations.len() > 0 {
        calculations[0].ts
    } else {
        now
    }
}

/// The stem of the name of the file that the calculations are written to:
/// `final_calculations_`, then the seconds since the Unix epoch of the first
/// calculation's timestamp, or of `now` where there is no calculation.
pub fn calculations_file_stem<T>(calculations: &Vec<Calculation<T>>, now: Timestamp) -> (r: String)
    ensures
        r@ == "final_calculations_"@ + decimal(naming_instant(calculations@, now).secs as int),
{
    let ts = if calculations.len() > 0 {
        calculations[0].ts
    } else {
        now
    };
    String::from_str("final_calculations_").concat(decimal_string(ts.secs).as_str())
}

} // verus!
