use call_sim::config::{GroupConfig, MetricKind};
use call_sim::error::RunError;
use call_sim::report::{Aggregator, Failure, Series};
use call_sim::runner::{ErrorInfo, Phase, RunResult};
use call_sim::score::MetricSample;

fn group(name: &str, x_axis_labels: &[&str]) -> GroupConfig {
    GroupConfig {
        name: name.to_string(),
        chart_dimensions: vec![MetricKind::Mos],
        x_axis_labels: x_axis_labels.iter().map(|label| label.to_string()).collect(),
    }
}

fn passed(group: &str, case: &str, label: &str, mos: u32) -> RunResult {
    RunResult {
        group: group.to_string(),
        test_case_name: case.to_string(),
        profile_label: label.to_string(),
        metrics: vec![MetricSample { kind: MetricKind::Mos, value: mos }],
        series: vec![],
        artifact_paths: vec![],
        succeeded: true,
        error: None,
    }
}

fn failed(group: &str, case: &str, label: &str, error: RunError) -> RunResult {
    RunResult {
        group: group.to_string(),
        test_case_name: case.to_string(),
        profile_label: label.to_string(),
        metrics: vec![],
        series: vec![],
        artifact_paths: vec![],
        succeeded: false,
        error: Some(ErrorInfo { error, during: Phase::InCall }),
    }
}

fn series(case: &str, points: Vec<Option<u32>>) -> Series {
    Series { test_case_name: case.to_string(), points }
}

#[test]
fn failed_run_leaves_a_gap_and_is_listed() {
    let mut aggregator = Aggregator::new();
    aggregator.ingest(passed("g", "with_dtx", "none", 4500));
    aggregator.ingest(passed("g", "with_dtx", "simple_loss_10", 4000));
    aggregator.ingest(passed("g", "with_dtx", "simple_loss_20", 3500));
    aggregator.ingest(passed("g", "no_dtx", "none", 4400));
    aggregator.ingest(failed("g", "no_dtx", "simple_loss_10", RunError::CallEndedEarly));
    aggregator.ingest(passed("g", "no_dtx", "simple_loss_20", 3300));
    assert_eq!(aggregator.len(), 6);

    let report = aggregator.finalize(&group("g", &[]));
    assert_eq!(report.group, "g");
    assert_eq!(report.x_axis, vec!["none", "simple_loss_10", "simple_loss_20"]);
    assert_eq!(report.charts.len(), 1);
    assert_eq!(report.charts[0].dimension, MetricKind::Mos);
    assert_eq!(
        report.charts[0].series,
        vec![
            series("with_dtx", vec![Some(4500), Some(4000), Some(3500)]),
            series("no_dtx", vec![Some(4400), None, Some(3300)]),
        ]
    );
    assert_eq!(
        report.failures,
        vec![Failure {
            test_case_name: "no_dtx".to_string(),
            profile_label: "simple_loss_10".to_string(),
            error: Some(ErrorInfo { error: RunError::CallEndedEarly, during: Phase::InCall }),
        }]
    );
}

#[test]
fn a_failed_run_scores_no_zero() {
    let mut aggregator = Aggregator::new();
    let mut result = failed("g", "a", "none", RunError::ScoringFailed);
    result.metrics = vec![MetricSample { kind: MetricKind::Mos, value: 0 }];
    aggregator.ingest(result);
    let report = aggregator.finalize(&group("g", &[]));
    assert_eq!(report.charts[0].series, vec![series("a", vec![None])]);
    assert_eq!(report.failures.len(), 1);
}

#[test]
fn groups_are_reported_independently() {
    let mut aggregator = Aggregator::new();
    aggregator.ingest(passed("ptime_over_loss", "ptime_20", "none", 4500));
    aggregator.ingest(passed("ptime_over_bandwidth", "ptime_20", "none", 4400));
    aggregator.ingest(passed("ptime_over_loss", "ptime_20", "simple_loss_10", 4000));
    aggregator
        .ingest(failed("ptime_over_bandwidth", "ptime_40", "limited_bandwidth_25", RunError::Timeout));
    aggregator.ingest(passed("ptime_over_loss", "ptime_40", "none", 4450));

    let loss = aggregator.finalize(&group("ptime_over_loss", &[]));
    assert_eq!(loss.x_axis, vec!["none", "simple_loss_10"]);
    assert_eq!(
        loss.charts[0].series,
        vec![
            series("ptime_20", vec![Some(4500), Some(4000)]),
            series("ptime_40", vec![Some(4450), None]),
        ]
    );
    assert_eq!(loss.failures, vec![]);

    let bandwidth = aggregator.finalize(&group("ptime_over_bandwidth", &[]));
    assert_eq!(bandwidth.x_axis, vec!["none", "limited_bandwidth_25"]);
    assert_eq!(
        bandwidth.charts[0].series,
        vec![series("ptime_20", vec![Some(4400), None]), series("ptime_40", vec![None, None])]
    );
    assert_eq!(bandwidth.failures.len(), 1);
    assert_eq!(bandwidth.failures[0].test_case_name, "ptime_40");

    let mut alone = Aggregator::new();
    alone.ingest(passed("ptime_over_loss", "ptime_20", "none", 4500));
    alone.ingest(passed("ptime_over_loss", "ptime_20", "simple_loss_10", 4000));
    alone.ingest(passed("ptime_over_loss", "ptime_40", "none", 4450));
    assert_eq!(alone.finalize(&group("ptime_over_loss", &[])), loss);
}

#[test]
fn listed_labels_come_first_in_their_order() {
    let mut aggregator = Aggregator::new();
    aggregator.ingest(passed("g", "a", "none", 4500));
    aggregator.ingest(passed("g", "a", "simple_loss_10", 4000));
    aggregator.ingest(passed("g", "a", "simple_loss_20", 3500));
    aggregator.ingest(passed("g", "a", "simple_loss_30", 3000));
    let listed = group("g", &["simple_loss_30", "missing", "simple_loss_10", "simple_loss_30"]);
    let report = aggregator.finalize(&listed);
    assert_eq!(report.x_axis, vec!["simple_loss_30", "simple_loss_10", "none", "simple_loss_20"]);
    assert_eq!(
        report.charts[0].series,
        vec![series("a", vec![Some(3000), Some(4000), Some(4500), Some(3500)])]
    );
}

#[test]
fn first_result_of_a_run_decides() {
    let mut aggregator = Aggregator::new();
    aggregator.ingest(passed("g", "a", "none", 4500));
    aggregator.ingest(passed("g", "a", "none", 1000));
    let report = aggregator.finalize(&group("g", &[]));
    assert_eq!(report.x_axis, vec!["none"]);
    assert_eq!(report.charts[0].series, vec![series("a", vec![Some(4500)])]);
}

#[test]
fn each_dimension_is_charted_once() {
    let mut aggregator = Aggregator::new();
    aggregator.ingest(passed("g", "a", "none", 4500));
    let mut twice = group("g", &[]);
    twice.chart_dimensions = vec![MetricKind::Mos, MetricKind::Mos];
    assert_eq!(aggregator.finalize(&twice).charts.len(), 1);
    let mut none = group("g", &[]);
    none.chart_dimensions = vec![];
    let report = aggregator.finalize(&none);
    assert_eq!(report.charts.len(), 0);
    assert_eq!(report.x_axis, vec!["none"]);
}

#[test]
fn group_without_results_has_an_empty_report() {
    let mut aggregator = Aggregator::new();
    aggregator.ingest(passed("other", "a", "none", 4500));
    let report = aggregator.finalize(&group("g", &["none"]));
    assert_eq!(report.x_axis, Vec::<String>::new());
    assert_eq!(report.charts.len(), 1);
    assert_eq!(report.charts[0].series, vec![]);
    assert_eq!(report.failures, vec![]);
}

#[test]
fn run_without_the_metric_leaves_a_gap() {
    let mut aggregator = Aggregator::new();
    let mut result = passed("g", "a", "none", 0);
    result.metrics = vec![];
    aggregator.ingest(result);
    let report = aggregator.finalize(&group("g", &[]));
    assert_eq!(report.charts[0].series, vec![series("a", vec![None])]);
    assert_eq!(report.failures, vec![]);
}
