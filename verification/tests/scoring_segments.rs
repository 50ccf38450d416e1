use call_sim::config::{AudioAnalysisMode, MetricKind};
use call_sim::network::{NetworkConfig, NetworkConfigWithOffset};
use call_sim::score::{assemble, find_metric, mean_of, MetricSample, SeriesPoint};
use call_sim::segment::{scoring_plan, Segment};

fn timeline(seconds: &[u32]) -> Vec<NetworkConfigWithOffset> {
    seconds
        .iter()
        .map(|s| NetworkConfigWithOffset::at_secs(*s, NetworkConfig::unimpaired()))
        .collect()
}

fn seg(start_ms: u64, end_ms: u64) -> Segment {
    Segment { start_ms, end_ms }
}

#[test]
fn full_mode_scores_the_call_as_one_unit() {
    let plan = scoring_plan(AudioAnalysisMode::Full, &timeline(&[0, 60, 120]), 240_000, 12_000);
    assert_eq!(plan, vec![seg(0, 240_000)]);
    let plain = scoring_plan(AudioAnalysisMode::Full, &vec![], 30_000, 0);
    assert_eq!(plain, vec![seg(0, 30_000)]);
}

#[test]
fn chopped_mode_has_one_segment_per_offset() {
    let plan =
        scoring_plan(AudioAnalysisMode::Chopped, &timeline(&[0, 60, 120, 180]), 240_000, 0);
    assert_eq!(
        plan,
        vec![
            seg(0, 60_000),
            seg(60_000, 120_000),
            seg(120_000, 180_000),
            seg(180_000, 240_000),
        ]
    );
}

#[test]
fn chopped_mode_cuts_each_stretch_into_pieces() {
    let plan =
        scoring_plan(AudioAnalysisMode::Chopped, &timeline(&[0, 60, 120, 180]), 240_000, 12_000);
    assert_eq!(plan.len(), 20);
    for (k, segment) in plan.iter().enumerate() {
        assert_eq!(*segment, seg(12_000 * k as u64, 12_000 * (k as u64 + 1)));
    }
}

#[test]
fn pieces_are_counted_from_each_offset_and_the_last_may_be_shorter() {
    let plan = scoring_plan(AudioAnalysisMode::Chopped, &timeline(&[0, 10]), 25_000, 4_000);
    assert_eq!(
        plan,
        vec![
            seg(0, 4_000),
            seg(4_000, 8_000),
            seg(8_000, 10_000),
            seg(10_000, 14_000),
            seg(14_000, 18_000),
            seg(18_000, 22_000),
            seg(22_000, 25_000),
        ]
    );
}

#[test]
fn chopped_call_without_timeline_is_cut_from_its_start() {
    assert_eq!(scoring_plan(AudioAnalysisMode::Chopped, &vec![], 30_000, 0), vec![seg(0, 30_000)]);
    assert_eq!(
        scoring_plan(AudioAnalysisMode::Chopped, &vec![], 30_000, 12_000),
        vec![seg(0, 12_000), seg(12_000, 24_000), seg(24_000, 30_000)]
    );
    assert_eq!(scoring_plan(AudioAnalysisMode::Chopped, &vec![], 0, 12_000), vec![]);
}

#[test]
fn segments_cover_the_call_without_gap() {
    let plan =
        scoring_plan(AudioAnalysisMode::Chopped, &timeline(&[0, 7, 19, 20]), 61_500, 5_000);
    assert_eq!(plan[0].start_ms, 0);
    assert_eq!(plan[plan.len() - 1].end_ms, 61_500);
    for pair in plan.windows(2) {
        assert_eq!(pair[0].end_ms, pair[1].start_ms);
    }
    for segment in &plan {
        assert!(segment.start_ms < segment.end_ms);
        assert!(segment.end_ms - segment.start_ms <= 5_000);
    }
    for offset in [0u64, 7_000, 19_000, 20_000] {
        assert!(plan.iter().any(|segment| segment.start_ms == offset));
    }
}

#[test]
fn huge_call_does_not_overflow() {
    let plan = scoring_plan(AudioAnalysisMode::Chopped, &vec![], u64::MAX, u64::MAX - 1);
    assert_eq!(plan, vec![seg(0, u64::MAX - 1), seg(u64::MAX - 1, u64::MAX)]);
}

#[test]
fn mean_is_rounded_down() {
    assert_eq!(mean_of(&vec![]), None);
    assert_eq!(mean_of(&vec![4321]), Some(4321));
    assert_eq!(mean_of(&vec![4000, 3000, 2000, 4001]), Some(3250));
    assert_eq!(mean_of(&vec![1, 2]), Some(1));
    assert_eq!(mean_of(&vec![u32::MAX, u32::MAX, u32::MAX]), Some(u32::MAX));
}

#[test]
fn full_mode_has_exactly_one_aggregate_score() {
    let segments = vec![seg(0, 30_000)];
    let report = assemble(AudioAnalysisMode::Full, &segments, &vec![4200]).unwrap();
    assert_eq!(report.metrics, vec![MetricSample { kind: MetricKind::Mos, value: 4200 }]);
    assert_eq!(report.series, vec![]);
    assert_eq!(assemble(AudioAnalysisMode::Full, &segments, &vec![]), None);
    assert_eq!(assemble(AudioAnalysisMode::Full, &segments, &vec![1, 2]), None);
    let two = vec![seg(0, 10), seg(10, 20)];
    assert_eq!(assemble(AudioAnalysisMode::Full, &two, &vec![1, 2]), None);
}

#[test]
fn chopped_mode_has_one_score_per_segment_and_their_mean() {
    let segments =
        vec![seg(0, 60_000), seg(60_000, 120_000), seg(120_000, 180_000), seg(180_000, 240_000)];
    let report =
        assemble(AudioAnalysisMode::Chopped, &segments, &vec![4400, 3100, 2200, 4300]).unwrap();
    assert_eq!(report.metrics, vec![MetricSample { kind: MetricKind::Mos, value: 3500 }]);
    assert_eq!(
        report.series,
        vec![
            SeriesPoint { start_ms: 0, value: 4400 },
            SeriesPoint { start_ms: 60_000, value: 3100 },
            SeriesPoint { start_ms: 120_000, value: 2200 },
            SeriesPoint { start_ms: 180_000, value: 4300 },
        ]
    );
    assert_eq!(assemble(AudioAnalysisMode::Chopped, &segments, &vec![4400, 3100, 2200]), None);
}

#[test]
fn chopped_call_without_segments_has_no_score() {
    let report = assemble(AudioAnalysisMode::Chopped, &vec![], &vec![]).unwrap();
    assert_eq!(report.metrics, vec![]);
    assert_eq!(report.series, vec![]);
}

#[test]
fn first_sample_of_a_kind_is_its_value() {
    let metrics = vec![
        MetricSample { kind: MetricKind::Mos, value: 4100 },
        MetricSample { kind: MetricKind::Mos, value: 1000 },
    ];
    assert_eq!(find_metric(&metrics, MetricKind::Mos), Some(4100));
    assert_eq!(find_metric(&vec![], MetricKind::Mos), None);
}

#[test]
fn segments_are_aligned_with_the_looped_reference() {
    assert_eq!(seg(0, 12_000).reference_phase(12_000), 0);
    assert_eq!(seg(60_000, 72_000).reference_phase(12_000), 0);
    assert_eq!(seg(10_000, 14_000).reference_phase(4_000), 2_000);
    assert_eq!(seg(22_000, 25_000).reference_phase(4_000), 2_000);
    assert_eq!(seg(7_000, 9_000).reference_phase(0), 0);
    assert_eq!(seg(7_000, 9_000).length_ms(), 2_000);
    assert_eq!(seg(9_000, 7_000).length_ms(), 0);
}
