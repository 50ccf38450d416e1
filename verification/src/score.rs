//! Scores of a run and the metrics they are assembled into.

use vstd::prelude::*;
use crate::config::{AudioAnalysisMode, MetricKind};
use crate::segment::Segment;

verus! {

/// The value of one metric of a run. Scores are kept in thousandths.
#[derive(Clone, Copy, Debug, PartialEq, Eq, Structural)]
pub struct MetricSample {
    pub kind: MetricKind,
    pub value: u32,
}

/// The score of one segment of a call, by the time at which the segment starts.
#[derive(Clone, Copy, Debug, PartialEq, Eq, Structural)]
pub struct SeriesPoint {
    pub start_ms: u64,
    pub value: u32,
}

/// What scoring a run yields.
#[derive(Clone, Debug, PartialEq, Eq)]
pub struct ScoreReport {
    pub metrics: Vec<MetricSample>,
    pub series: Vec<SeriesPoint>,
}

/// The sum of `scores`.
pub open spec fn total(scores: Seq<u32>) -> int
    decreases scores.len(),
{
    if scores.len() == 0 {
        0
    } else {
        total(scores.drop_last()) + scores.last()
    }
}

/// The mean of `scores`, rounded down.
pub open spec fn mean(scores: Seq<u32>) -> int
    recommends
        scores.len() > 0,
{
    total(scores) / (scores.len() as int)
}

/// The scores of `segments`, each at the start of its segment.
pub open spec fn series_of(segments: Seq<Segment>, scores: Seq<u32>) -> Seq<SeriesPoint> {
    Seq::new(
        segments.len(),
        |k: int| SeriesPoint { start_ms: segments[k].start_ms, value: scores[k] },
    )
}

/// The one sample of a mean opinion score.
pub open spec fn mos(value: int) -> Seq<MetricSample> {
    seq![MetricSample { kind: MetricKind::Mos, value: value as u32 }]
}

/// The metrics and the series that `scores` amount to, one score for each of
/// `segments`; nothing where the scores do not match the segments.
///
/// A call scored in full has its one score as its mean opinion score and no series.
/// A chopped call has the series of its segments and their mean as its mean opinion
/// score.
pub open spec fn spec_assemble(
    mode: AudioAnalysisMode,
    segments: Seq<Segment>,
    scores: Seq<u32>,
) -> Option<(Seq<MetricSample>, Seq<SeriesPoint>)> {
    if scores.len() != segments.len() {
        None
    } else {
        match mode {
            AudioAnalysisMode::Full => if scores.len() == 1 {
                Some((mos(scores[0] as int), Seq::empty()))
            } else {
                None
            },
            AudioAnalysisMode::Chopped => Some(
                (
                    if scores.len() == 0 {
                        Seq::empty()
                    } else {
                        mos(mean(scores))
                    },
                    series_of(segments, scores),
                ),
            ),
        }
    }
}

/// The value of the first sample of `kind` at or after position `from`.
pub open spec fn metric_from(metrics: Seq<MetricSample>, kind: MetricKind, from: int) -> Option<
    u32,
>
    decreases metrics.len() - from,
{
    if from < 0 || from >= metrics.len() {
        None
    } else if metrics[from].kind == kind {
        Some(metrics[from].value)
    } else {
        metric_from(metrics, kind, from + 1)
    }
}

/// The value of the first sample of `kind`.
pub open spec fn metric_value(metrics: Seq<MetricSample>, kind: MetricKind) -> Option<u32> {
    metric_from(metrics, kind, 0)
}

/// A call scored in full has exactly one score, its mean opinion score, and no
/// series. A chopped call has one point in its series for each segment, at the start
/// of that segment and in the order of the segments, and a mean opinion score unless
/// it has no segment at all.
pub proof fn lemma_scores_per_mode(
    mode: AudioAnalysisMode,
    segments: Seq<Segment>,
    scores: Seq<u32>,
)
    ensures
        spec_assemble(mode, segments, scores) is Some <==> scores.len() == segments.len() && (mode
            == AudioAnalysisMode::Full ==> scores.len() == 1),
        spec_assemble(mode, segments, scores) matches Some((metrics, series)) ==> match mode {
            AudioAnalysisMode::Full => {
                &&& metrics.len() == 1
                &&& metric_value(metrics, MetricKind::Mos) == Some(scores[0])
                &&& series.len() == 0
            },
            AudioAnalysisMode::Chopped => {
                &&& series.len() == segments.len()
                &&& forall|k: int|
                    0 <= k < series.len() ==> (#[trigger] series[k]).start_ms
                        == segments[k].start_ms && series[k].value == scores[k]
                &&& metrics.len() == (if segments.len() == 0 {
                    0nat
                } else {
                    1nat
                })
            },
        },
{
}

/// The sum of a list is at most its length times the largest score there is.
pub proof fn lemma_total_bounds(scores: Seq<u32>)
    ensures
        0 <= total(scores) <= scores.len() * u32::MAX,
    decreases scores.len(),
{
    if scores.len() > 0 {
        lemma_total_bounds(scores.drop_last());
        assert((scores.len() - 1) * u32::MAX + u32::MAX == scores.len() * u32::MAX)
            by (nonlinear_arith);
    }
}

/// The mean of a list lies between zero and the largest score there is.
pub proof fn lemma_mean_bounds(scores: Seq<u32>)
    requires
        scores.len() > 0,
    ensures
        0 <= mean(scores) <= u32::MAX,
{
    lemma_total_bounds(scores);
    let n = scores.len() as int;
    let t = total(scores);
    assert(0 <= t / n <= u32::MAX) by (nonlinear_arith)
        requires
            0 <= t <= n * u32::MAX,
            n > 0,
    ;
}

/// The mean of `scores`, rounded down; nothing for an empty list.
pub fn mean_of(scores: &Vec<u32>) -> (r: Option<u32>)
    ensures
        r == if scores@.len() == 0 {
            None
        } else {
            Some(mean(scores@) as u32)
        },
        scores@.len() > 0 ==> 0 <= mean(scores@) <= u32::MAX,
{
    if scores.len() == 0 {
        return None;
    }
    let mut sum: u128 = 0;
    let mut i: usize = 0;
    while i < scores.len()
        invariant
            i <= scores.len(),
            sum == total(scores@.take(i as int)),
            sum <= i * u32::MAX,
        decreases scores.len() - i,
    {
        proof {
            assert(scores@.take(i + 1).drop_last() =~= scores@.take(i as int));
            assert(i * u32::MAX <= usize::MAX * u32::MAX) by (nonlinear_arith)
                requires
                    i <= usize::MAX,
            ;
        }
        sum = sum + scores[i] as u128;
        i = i + 1;
    }
    proof {
        assert(scores@.take(i as int) =~= scores@);
        lemma_mean_bounds(scores@);
    }
    let n: u128 = scores.len() as u128;
    Some((sum / n) as u32)
}

/// Assembles the scores of a run, given in the order of its segments.
pub fn assemble(mode: AudioAnalysisMode, segments: &Vec<Segment>, scores: &Vec<u32>) -> (r: Option<
    ScoreReport,
>)
    ensures
        match r {
            Some(report) => spec_assemble(mode, segments@, scores@) == Some(
                (report.metrics@, report.series@),
            ),
            None => spec_assemble(mode, segments@, scores@) is None,
        },
{
    if scores.len() != segments.len() {
        return None;
    }
    let mut metrics: Vec<MetricSample> = Vec::new();
    let mut series: Vec<SeriesPoint> = Vec::new();
    match mode {
        AudioAnalysisMode::Full => {
            if scores.len() != 1 {
                return None;
            }
            metrics.push(MetricSample { kind: MetricKind::Mos, value: scores[0] });
        },
        AudioAnalysisMode::Chopped => {
            match mean_of(scores) {
                Some(value) => {
                    metrics.push(MetricSample { kind: MetricKind::Mos, value });
                },
                None => {},
            }
            let mut k: usize = 0;
            while k < segments.len()
                invariant
                    k <= segments.len() == scores.len(),
                    series.len() == k,
                    forall|a: int|
                        0 <= a < k ==> series[a] == (SeriesPoint {
                            start_ms: segments[a].start_ms,
                            value: scores[a],
                        }),
                decreases segments.len() - k,
            {
                series.push(SeriesPoint { start_ms: segments[k].start_ms, value: scores[k] });
                k = k + 1;
            }
        },
    }
    Some(ScoreReport { metrics, series })
}

/// The value of the first sample of `kind` among `metrics`.
pub fn find_metric(metrics: &Vec<MetricSample>, kind: MetricKind) -> (r: Option<u32>)
    ensures
        r == metric_value(metrics@, kind),
{
    let mut i: usize = 0;
    while i < metrics.len()
        invariant
            i <= metrics.len(),
            metric_value(metrics@, kind) == metric_from(metrics@, kind, i as int),
        decreases metrics.len() - i,
    {
        if metrics[i].kind == kind {
            return Some(metrics[i].value);
        }
        i = i + 1;
    }
    None
}

} // verus!
