use chrono::Utc;
use perf_runner::calculate::{
    calculate_regressions, current_index, exit_code, find_sample, regressions, select_current,
};
use perf_runner::exceptions::CalculateError;
use perf_runner::metric::Metric;
use perf_runner::types::{Baseline, Calculation, Measurement, MetricModel, Sample, Timestamp};
use perf_runner::version::Version;

fn now() -> Timestamp {
    let instant = Utc::now();
    Timestamp {
        secs: instant.timestamp(),
        nanos: instant.timestamp_subsec_nanos(),
    }
}

fn at(secs: i64) -> Timestamp {
    Timestamp { secs, nanos: 0 }
}

fn plus(a: f64, b: f64) -> f64 {
    a + b
}

fn times(a: f64, b: f64) -> f64 {
    a * b
}

fn exceeds(a: f64, b: f64) -> bool {
    a > b
}

fn metric(name: &str) -> Metric {
    Metric {
        name: name.to_owned(),
        project_name: "test".to_owned(),
    }
}

fn measurement(mean: f64, stddev: f64) -> Measurement<f64> {
    Measurement {
        command: "some command".to_owned(),
        mean,
        stddev,
        median: mean,
        user: mean,
        system: mean,
        min: 0.00,
        max: 2.00 * mean,
        times: vec![],
    }
}

fn model(name: &str, mean: f64, stddev: f64) -> MetricModel<f64> {
    MetricModel {
        metric: metric(name),
        ts: at(1),
        measurement: measurement(mean, stddev),
    }
}

fn sample(name: &str, value: f64, secs: i64) -> Sample<f64> {
    Sample {
        metric: metric(name),
        value,
        ts: at(secs),
    }
}

fn baseline(version: Version, models: Vec<MetricModel<f64>>) -> Baseline<f64> {
    Baseline { version, models }
}

#[test]
fn detects_3sigma_regression() {
    let project = "test".to_owned();
    let metric = "detects 3 sigma".to_owned();

    let measurement = Measurement {
        command: "some command".to_owned(),
        mean: 1.00,
        stddev: 0.1,
        median: 1.00,
        user: 1.00,
        system: 1.00,
        min: 0.00,
        max: 2.00,
        times: vec![],
    };

    let baseline_metric = MetricModel {
        metric: Metric {
            name: metric.clone(),
            project_name: project.clone(),
        },
        ts: now(),
        measurement: measurement,
    };

    let baseline = Baseline {
        version: Version::new(9, 9, 9),
        models: vec![baseline_metric],
    };

    let sample = Sample {
        metric: Metric {
            name: metric.clone(),
            project_name: project.clone(),
        },
        value: 1.31,
        ts: now(),
    };

    let calculations = calculate_regressions(
        &[sample],
        baseline,
        3.0, // 3 sigma
        plus,
        times,
        exceeds,
    );

    let regressions: Vec<&Calculation<f64>> =
        calculations.iter().filter(|calc| calc.regression).collect();

    // expect one regression for the mean being outside the 3 sigma
    println!("{:#?}", regressions);
    assert_eq!(regressions.len(), 1);
    assert_eq!(regressions[0].metric.name, "detects 3 sigma");
}

#[test]
fn passes_near_3sigma() {
    let project = "test".to_owned();
    let metric = "passes near 3 sigma".to_owned();

    let measurement = Measurement {
        command: "some command".to_owned(),
        mean: 1.00,
        stddev: 0.1,
        median: 1.00,
        user: 1.00,
        system: 1.00,
        min: 0.00,
        max: 2.00,
        times: vec![],
    };

    let baseline_metric = MetricModel {
        metric: Metric {
            name: metric.clone(),
            project_name: project.clone(),
        },
        ts: now(),
        measurement: measurement,
    };

    let baseline = Baseline {
        version: Version::new(9, 9, 9),
        models: vec![baseline_metric],
    };

    let sample = Sample {
        metric: Metric {
            name: metric.clone(),
            project_name: project.clone(),
        },
        value: 1.29,
        ts: now(),
    };

    let calculations = calculate_regressions(
        &[sample],
        baseline,
        3.0, // 3 sigma
        plus,
        times,
        exceeds,
    );

    let regressions: Vec<&Calculation<f64>> =
        calculations.iter().filter(|calc| calc.regression).collect();

    // expect no regressions
    println!("{:#?}", regressions);
    assert!(regressions.is_empty());
}

#[test]
fn value_at_the_threshold_is_no_regression() {
    let calculations = calculate_regressions(
        &[sample("m", 1.30, 5)],
        baseline(Version::new(1, 0, 0), vec![model("m", 1.00, 0.10)]),
        3.0,
        plus,
        times,
        exceeds,
    );
    assert_eq!(calculations.len(), 1);
    assert_eq!(calculations[0].threshold, 1.30);
    assert!(!calculations[0].regression);
}

#[test]
fn calculation_records_where_it_comes_from() {
    let calculations = calculate_regressions(
        &[sample("m", 1.31, 77)],
        baseline(Version::new(1, 2, 3), vec![model("m", 1.00, 0.10)]),
        3.0,
        plus,
        times,
        exceeds,
    );
    assert_eq!(
        calculations,
        vec![Calculation {
            version: Version::new(1, 2, 3),
            metric: metric("m"),
            regression: true,
            ts: at(77),
            sigma: 3.0,
            mean: 1.00,
            stddev: 0.10,
            threshold: 1.00 + 3.0 * 0.10,
        }]
    );
}

#[test]
fn two_metrics_one_regression() {
    let calculations = calculate_regressions(
        &[sample("A", 3.6, 5), sample("B", 5.0, 5)],
        baseline(
            Version::new(1, 0, 0),
            vec![model("A", 2.0, 0.5), model("B", 5.0, 0.0)],
        ),
        3.0,
        plus,
        times,
        exceeds,
    );
    assert_eq!(calculations.len(), 2);
    assert_eq!(calculations[0].metric, metric("A"));
    assert_eq!(calculations[0].threshold, 3.5);
    assert!(calculations[0].regression);
    assert_eq!(calculations[1].metric, metric("B"));
    assert_eq!(calculations[1].threshold, 5.0);
    assert!(!calculations[1].regression);
    assert_eq!(exit_code(&calculations), 1);
}

#[test]
fn zero_deviation_flags_all_above_the_mean() {
    let flagged = calculate_regressions(
        &[sample("B", 5.000001, 5)],
        baseline(Version::new(1, 0, 0), vec![model("B", 5.0, 0.0)]),
        3.0,
        plus,
        times,
        exceeds,
    );
    assert_eq!(flagged[0].threshold, 5.0);
    assert!(flagged[0].regression);
}

#[test]
fn faster_than_the_baseline_is_no_regression() {
    let calculations = calculate_regressions(
        &[sample("m", 0.01, 5)],
        baseline(Version::new(1, 0, 0), vec![model("m", 1.00, 0.10)]),
        3.0,
        plus,
        times,
        exceeds,
    );
    assert!(!calculations[0].regression);
}

#[test]
fn model_without_sample_is_passed_over() {
    let calculations = calculate_regressions(
        &[sample("B", 9.0, 5)],
        baseline(
            Version::new(1, 0, 0),
            vec![model("A", 2.0, 0.5), model("B", 5.0, 0.0), model("C", 1.0, 1.0)],
        ),
        3.0,
        plus,
        times,
        exceeds,
    );
    assert_eq!(calculations.len(), 1);
    assert_eq!(calculations[0].metric, metric("B"));
}

#[test]
fn sample_without_model_is_ignored() {
    let calculations = calculate_regressions(
        &[sample("X", 100.0, 5), sample("A", 1.0, 5), sample("Y", 100.0, 5)],
        baseline(Version::new(1, 0, 0), vec![model("A", 2.0, 0.5)]),
        3.0,
        plus,
        times,
        exceeds,
    );
    assert_eq!(calculations.len(), 1);
    assert_eq!(calculations[0].metric, metric("A"));
    assert!(!calculations[0].regression);
}

#[test]
fn nothing_in_common_gives_no_calculation() {
    let none = calculate_regressions(
        &[sample("X", 100.0, 5)],
        baseline(Version::new(1, 0, 0), vec![model("A", 2.0, 0.5)]),
        3.0,
        plus,
        times,
        exceeds,
    );
    assert!(none.is_empty());
    let no_samples = calculate_regressions(
        &[],
        baseline(Version::new(1, 0, 0), vec![model("A", 2.0, 0.5)]),
        3.0,
        plus,
        times,
        exceeds,
    );
    assert!(no_samples.is_empty());
    let no_models = calculate_regressions(
        &[sample("X", 100.0, 5)],
        baseline(Version::new(1, 0, 0), vec![]),
        3.0,
        plus,
        times,
        exceeds,
    );
    assert!(no_models.is_empty());
    assert_eq!(exit_code(&no_models), 0);
}

#[test]
fn samples_are_matched_on_name_and_project() {
    let other_project = Sample {
        metric: Metric {
            name: "A".to_owned(),
            project_name: "other".to_owned(),
        },
        value: 100.0,
        ts: at(5),
    };
    let calculations = calculate_regressions(
        &[other_project],
        baseline(Version::new(1, 0, 0), vec![model("A", 2.0, 0.5)]),
        3.0,
        plus,
        times,
        exceeds,
    );
    assert!(calculations.is_empty());
}

#[test]
fn last_sample_of_a_metric_counts() {
    let samples = [sample("A", 100.0, 1), sample("B", 1.0, 2), sample("A", 1.0, 3)];
    assert_eq!(find_sample(&samples, &metric("A")), Some(2));
    assert_eq!(find_sample(&samples, &metric("B")), Some(1));
    assert_eq!(find_sample(&samples, &metric("C")), None);
    let calculations = calculate_regressions(
        &samples,
        baseline(Version::new(1, 0, 0), vec![model("A", 2.0, 0.5)]),
        3.0,
        plus,
        times,
        exceeds,
    );
    assert_eq!(calculations.len(), 1);
    assert_eq!(calculations[0].ts, at(3));
    assert!(!calculations[0].regression);
}

#[test]
fn calculations_come_in_the_order_of_the_models() {
    let calculations = calculate_regressions(
        &[sample("A", 1.0, 1), sample("B", 1.0, 2), sample("C", 1.0, 3)],
        baseline(
            Version::new(1, 0, 0),
            vec![model("C", 2.0, 0.5), model("A", 2.0, 0.5), model("B", 2.0, 0.5)],
        ),
        3.0,
        plus,
        times,
        exceeds,
    );
    let names: Vec<&str> = calculations.iter().map(|c| c.metric.name.as_str()).collect();
    assert_eq!(names, vec!["C", "A", "B"]);
}

#[test]
fn sigma_is_the_multiplier_of_the_deviation() {
    for (sigma, expected) in [(0.0, 2.0), (1.0, 2.5), (2.0, 3.0), (3.0, 3.5)] {
        let calculations = calculate_regressions(
            &[sample("A", 2.75, 1)],
            baseline(Version::new(1, 0, 0), vec![model("A", 2.0, 0.5)]),
            sigma,
            plus,
            times,
            exceeds,
        );
        assert_eq!(calculations[0].sigma, sigma);
        assert_eq!(calculations[0].threshold, expected);
        assert_eq!(calculations[0].regression, 2.75 > expected);
    }
}

#[test]
fn calculator_works_on_whole_numbers_too() {
    let model = MetricModel {
        metric: metric("A"),
        ts: at(1),
        measurement: Measurement {
            command: "some command".to_owned(),
            mean: 100u64,
            stddev: 10,
            median: 100,
            user: 100,
            system: 100,
            min: 0,
            max: 200,
            times: vec![],
        },
    };
    let samples = [Sample {
        metric: metric("A"),
        value: 131u64,
        ts: at(2),
    }];
    let calculations = calculate_regressions(
        &samples,
        Baseline {
            version: Version::new(1, 0, 0),
            models: vec![model],
        },
        3,
        |a, b| a + b,
        |a, b| a * b,
        |a, b| a > b,
    );
    assert_eq!(calculations[0].threshold, 130);
    assert!(calculations[0].regression);
}

#[test]
fn current_baseline_has_the_greatest_version() {
    let baselines = vec![
        baseline(Version::new(1, 9, 0), vec![model("old", 1.0, 1.0)]),
        baseline(Version::new(1, 10, 0), vec![model("new", 1.0, 1.0)]),
        baseline(Version::new(0, 99, 99), vec![model("older", 1.0, 1.0)]),
    ];
    assert_eq!(current_index(&baselines), Some(1));
    let current = select_current(baselines).unwrap();
    assert_eq!(current.version, Version::new(1, 10, 0));
    assert_eq!(current.models[0].metric, metric("new"));
}

#[test]
fn current_baseline_of_one_is_that_one() {
    let baselines = vec![baseline(Version::new(0, 0, 1), vec![])];
    assert_eq!(current_index(&baselines), Some(0));
    assert_eq!(select_current(baselines).unwrap().version, Version::new(0, 0, 1));
}

#[test]
fn first_of_equal_versions_is_current() {
    let baselines = vec![
        baseline(Version::new(1, 0, 0), vec![model("low", 1.0, 1.0)]),
        baseline(Version::new(2, 0, 0), vec![model("first", 1.0, 1.0)]),
        baseline(Version::new(2, 0, 0), vec![model("second", 1.0, 1.0)]),
    ];
    assert_eq!(current_index(&baselines), Some(1));
    assert_eq!(select_current(baselines).unwrap().models[0].metric, metric("first"));
}

#[test]
fn no_baselines_is_an_error() {
    let baselines: Vec<Baseline<f64>> = Vec::new();
    assert_eq!(current_index(&baselines), None);
    assert_eq!(
        select_current(baselines),
        Err(CalculateError::NoBaselinesFoundError)
    );
    assert_eq!(
        regressions(Vec::new(), &[sample("A", 1.0, 1)], 3.0, plus, times, exceeds),
        Err(CalculateError::NoBaselinesFoundError)
    );
}

#[test]
fn regressions_compare_against_the_current_baseline() {
    let baselines = vec![
        baseline(Version::new(1, 0, 0), vec![model("A", 1.0, 0.0)]),
        baseline(Version::new(1, 1, 0), vec![model("A", 10.0, 0.0)]),
        baseline(Version::new(1, 0, 5), vec![model("A", 1.0, 0.0)]),
    ];
    let calculations =
        regressions(baselines, &[sample("A", 5.0, 9)], 3.0, plus, times, exceeds).unwrap();
    assert_eq!(calculations.len(), 1);
    assert_eq!(calculations[0].version, Version::new(1, 1, 0));
    assert_eq!(calculations[0].threshold, 10.0);
    assert!(!calculations[0].regression);
}

#[test]
fn exit_code_is_one_where_a_regression_is_found() {
    let clean = Calculation {
        version: Version::new(1, 0, 0),
        metric: metric("A"),
        regression: false,
        ts: at(1),
        sigma: 3.0,
        mean: 1.0,
        stddev: 0.1,
        threshold: 1.3,
    };
    let mut flagged = clean.clone();
    flagged.regression = true;
    assert_eq!(exit_code(&Vec::<Calculation<f64>>::new()), 0);
    assert_eq!(exit_code(&vec![clean.clone()]), 0);
    assert_eq!(exit_code(&vec![clean.clone(), clean.clone()]), 0);
    assert_eq!(exit_code(&vec![flagged.clone()]), 1);
    assert_eq!(exit_code(&vec![clean.clone(), clean.clone(), flagged.clone()]), 1);
    assert_eq!(exit_code(&vec![flagged, clean]), 1);
}

#[test]
fn baseline_knows_whether_its_metrics_are_unique() {
    assert!(baseline(Version::new(1, 0, 0), vec![]).has_unique_metrics());
    assert!(baseline(Version::new(1, 0, 0), vec![model("A", 1.0, 1.0)]).has_unique_metrics());
    assert!(baseline(
        Version::new(1, 0, 0),
        vec![model("A", 1.0, 1.0), model("B", 1.0, 1.0), model("C", 1.0, 1.0)]
    )
    .has_unique_metrics());
    assert!(!baseline(
        Version::new(1, 0, 0),
        vec![model("A", 1.0, 1.0), model("B", 1.0, 1.0), model("A", 2.0, 1.0)]
    )
    .has_unique_metrics());
}
