//! Aggregation of the results of a test set into the charts of its groups.

use vstd::prelude::*;
use crate::config::{GroupConfig, GroupConfigView, MetricKind};
use crate::runner::{result_views, ErrorInfo, RunResult, RunResultView};
use crate::score::{find_metric, metric_value};
use crate::text::{contains_name, views};

verus! {

/// The values of one test case along the horizontal axis of a chart. A point without
/// a value is a gap.
#[derive(Clone, Debug, PartialEq, Eq)]
pub struct Series {
    pub test_case_name: String,
    pub points: Vec<Option<u32>>,
}

/// One series for each test case of a group, for one metric.
#[derive(Clone, Debug, PartialEq, Eq)]
pub struct Chart {
    pub dimension: MetricKind,
    pub series: Vec<Series>,
}

/// A run that failed.
#[derive(Clone, Debug, PartialEq, Eq)]
pub struct Failure {
    pub test_case_name: String,
    pub profile_label: String,
    pub error: Option<ErrorInfo>,
}

/// What is reported of a group.
#[derive(Clone, Debug, PartialEq, Eq)]
pub struct Report {
    pub group: String,
    /// The profile labels along the horizontal axis of every chart.
    pub x_axis: Vec<String>,
    pub charts: Vec<Chart>,
    pub failures: Vec<Failure>,
}

/// The value of a `Series`.
#[verifier::ext_equal]
pub struct SeriesView {
    pub test_case_name: Seq<char>,
    pub points: Seq<Option<u32>>,
}

/// The value of a `Chart`.
#[verifier::ext_equal]
pub struct ChartView {
    pub dimension: MetricKind,
    pub series: Seq<SeriesView>,
}

/// The value of a `Failure`.
#[verifier::ext_equal]
pub struct FailureView {
    pub test_case_name: Seq<char>,
    pub profile_label: Seq<char>,
    pub error: Option<ErrorInfo>,
}

/// The value of a `Report`.
#[verifier::ext_equal]
pub struct ReportView {
    pub group: Seq<char>,
    pub x_axis: Seq<Seq<char>>,
    pub charts: Seq<ChartView>,
    pub failures: Seq<FailureView>,
}

impl View for Series {
    type V = SeriesView;

    open spec fn view(&self) -> SeriesView {
        SeriesView { test_case_name: self.test_case_name@, points: self.points@ }
    }
}

impl View for Chart {
    type V = ChartView;

    open spec fn view(&self) -> ChartView {
        ChartView {
            dimension: self.dimension,
            series: Seq::new(self.series@.len(), |c: int| self.series@[c]@),
        }
    }
}

impl View for Failure {
    type V = FailureView;

    open spec fn view(&self) -> FailureView {
        FailureView {
            test_case_name: self.test_case_name@,
            profile_label: self.profile_label@,
            error: self.error,
        }
    }
}

impl View for Report {
    type V = ReportView;

    open spec fn view(&self) -> ReportView {
        ReportView {
            group: self.group@,
            x_axis: views(self.x_axis@),
            charts: Seq::new(self.charts@.len(), |d: int| self.charts@[d]@),
            failures: Seq::new(self.failures@.len(), |f: int| self.failures@[f]@),
        }
    }
}

/// What a result is named by: its test case, or the profile it ran under.
#[derive(Clone, Copy, Debug, PartialEq, Eq, Structural)]
pub enum Naming {
    TestCase,
    Profile,
}

/// The name of `result` by `naming`.
pub open spec fn name_by(result: RunResultView, naming: Naming) -> Seq<char> {
    match naming {
        Naming::TestCase => result.test_case_name,
        Naming::Profile => result.profile_label,
    }
}

/// Whether a result belongs to `group`.
pub open spec fn in_group(group: Seq<char>) -> spec_fn(RunResultView) -> bool {
    |result: RunResultView| result.group == group
}

/// The results of `group` among `results`, in order.
pub open spec fn of_group(results: Seq<RunResultView>, group: Seq<char>) -> Seq<RunResultView> {
    results.filter(in_group(group))
}

/// The names of the results of `group`, each name once, in the order in which the
/// names first appear.
pub open spec fn names_seen(results: Seq<RunResultView>, group: Seq<char>, naming: Naming) -> Seq<
    Seq<char>,
>
    decreases results.len(),
{
    if results.len() == 0 {
        Seq::empty()
    } else {
        let earlier = names_seen(results.drop_last(), group, naming);
        let name = name_by(results.last(), naming);
        if results.last().group == group && !earlier.contains(name) {
            earlier.push(name)
        } else {
            earlier
        }
    }
}

/// `chosen`, followed by those of `candidates` that occur in `among` and have not
/// been chosen before, in their order.
pub open spec fn extended(
    chosen: Seq<Seq<char>>,
    candidates: Seq<Seq<char>>,
    among: Seq<Seq<char>>,
) -> Seq<Seq<char>>
    decreases candidates.len(),
{
    if candidates.len() == 0 {
        chosen
    } else {
        let earlier = extended(chosen, candidates.drop_last(), among);
        let name = candidates.last();
        if among.contains(name) && !earlier.contains(name) {
            earlier.push(name)
        } else {
            earlier
        }
    }
}

/// The labels along the horizontal axis: the labels that were seen, those that are
/// `listed` first and in the order in which they are listed, the others behind them
/// in the order in which they were seen.
pub open spec fn x_axis(listed: Seq<Seq<char>>, seen: Seq<Seq<char>>) -> Seq<Seq<char>> {
    extended(extended(Seq::empty(), listed, seen), seen, seen)
}

/// The kinds that are `listed`, each kind once, in order.
pub open spec fn kinds_listed(listed: Seq<MetricKind>) -> Seq<MetricKind>
    decreases listed.len(),
{
    if listed.len() == 0 {
        Seq::empty()
    } else {
        let earlier = kinds_listed(listed.drop_last());
        if earlier.contains(listed.last()) {
            earlier
        } else {
            earlier.push(listed.last())
        }
    }
}

/// Whether `result` is the result of the run of `case` under `label` in `group`.
pub open spec fn is_run(
    result: RunResultView,
    group: Seq<char>,
    case: Seq<char>,
    label: Seq<char>,
) -> bool {
    result.group == group && result.test_case_name == case && result.profile_label == label
}

/// The value that a result gives to a chart over `kind`: none if the run failed.
pub open spec fn value_of(result: RunResultView, kind: MetricKind) -> Option<u32> {
    if result.succeeded {
        metric_value(result.metrics, kind)
    } else {
        None
    }
}

/// What the first result of the run of `case` under `label` in `group` gives to a
/// chart over `kind`; nothing at all if there is no such result.
pub open spec fn run_value(
    results: Seq<RunResultView>,
    group: Seq<char>,
    case: Seq<char>,
    label: Seq<char>,
    kind: MetricKind,
) -> Option<Option<u32>>
    decreases results.len(),
{
    if results.len() == 0 {
        None
    } else {
        match run_value(results.drop_last(), group, case, label, kind) {
            Some(value) => Some(value),
            None => if is_run(results.last(), group, case, label) {
                Some(value_of(results.last(), kind))
            } else {
                None
            },
        }
    }
}

/// The point of `case` at `label` in a chart over `kind`: a gap if the run failed, if
/// it has no such metric, or if there is no result of it.
pub open spec fn point(
    results: Seq<RunResultView>,
    group: Seq<char>,
    case: Seq<char>,
    label: Seq<char>,
    kind: MetricKind,
) -> Option<u32> {
    match run_value(results, group, case, label, kind) {
        Some(value) => value,
        None => None,
    }
}

/// How a failed run is listed.
pub open spec fn failure_of(result: RunResultView) -> FailureView {
    FailureView {
        test_case_name: result.test_case_name,
        profile_label: result.profile_label,
        error: result.error,
    }
}

/// The failed runs of `group`, in order.
pub open spec fn failures_among(results: Seq<RunResultView>, group: Seq<char>) -> Seq<FailureView>
    decreases results.len(),
{
    if results.len() == 0 {
        Seq::empty()
    } else {
        let earlier = failures_among(results.drop_last(), group);
        if results.last().group == group && !results.last().succeeded {
            earlier.push(failure_of(results.last()))
        } else {
            earlier
        }
    }
}

/// The series of `case` over `kind` along `axis`.
pub open spec fn series_for(
    results: Seq<RunResultView>,
    group: Seq<char>,
    case: Seq<char>,
    axis: Seq<Seq<char>>,
    kind: MetricKind,
) -> SeriesView {
    SeriesView {
        test_case_name: case,
        points: Seq::new(axis.len(), |x: int| point(results, group, case, axis[x], kind)),
    }
}

/// The chart over `kind`: one series for each of `cases`.
pub open spec fn chart_for(
    results: Seq<RunResultView>,
    group: Seq<char>,
    cases: Seq<Seq<char>>,
    axis: Seq<Seq<char>>,
    kind: MetricKind,
) -> ChartView {
    ChartView {
        dimension: kind,
        series: Seq::new(cases.len(), |c: int| series_for(results, group, cases[c], axis, kind)),
    }
}

/// What is reported of `group`, given all `results` of the test set.
///
/// There is a chart for each dimension of the group and, in it, a series for each
/// test case of which the group has a result, in the order in which the cases first
/// appear. A run that failed, and a run of which there is no result, leaves a gap.
/// The failed runs are listed besides. Results of other groups count for nothing.
pub open spec fn spec_finalize(results: Seq<RunResultView>, group: GroupConfigView) -> ReportView {
    let cases = names_seen(results, group.name, Naming::TestCase);
    let labels = names_seen(results, group.name, Naming::Profile);
    let axis = x_axis(group.x_axis_labels, labels);
    let kinds = kinds_listed(group.chart_dimensions);
    ReportView {
        group: group.name,
        x_axis: axis,
        charts: Seq::new(
            kinds.len(),
            |d: int| chart_for(results, group.name, cases, axis, kinds[d]),
        ),
        failures: failures_among(results, group.name),
    }
}

/// Collects the results of a test set and reports on its groups.
pub struct Aggregator {
    results: Vec<RunResult>,
}

impl View for Aggregator {
    type V = Seq<RunResultView>;

    closed spec fn view(&self) -> Seq<RunResultView> {
        result_views(self.results@)
    }
}

fn extend_with(chosen: &mut Vec<String>, candidates: &Vec<String>, among: &Vec<String>)
    ensures
        views(final(chosen)@) == extended(views(old(chosen)@), views(candidates@), views(among@)),
{
    let mut i: usize = 0;
    while i < candidates.len()
        invariant
            i <= candidates.len(),
            views(chosen@) == extended(
                views(old(chosen)@),
                views(candidates@).take(i as int),
                views(among@),
            ),
        decreases candidates.len() - i,
    {
        proof {
            let upto = views(candidates@).take(i + 1);
            assert(upto.drop_last() =~= views(candidates@).take(i as int));
        }
        if contains_name(among, &candidates[i]) && !contains_name(chosen, &candidates[i]) {
            chosen.push(candidates[i].clone());
        }
        i = i + 1;
    }
    assert(views(candidates@).take(i as int) =~= views(candidates@));
}

fn distinct_kinds(listed: &Vec<MetricKind>) -> (r: Vec<MetricKind>)
    ensures
        r@ == kinds_listed(listed@),
{
    let mut kinds: Vec<MetricKind> = Vec::new();
    let mut i: usize = 0;
    while i < listed.len()
        invariant
            i <= listed.len(),
            kinds@ == kinds_listed(listed@.take(i as int)),
        decreases listed.len() - i,
    {
        let mut found: bool = false;
        let mut j: usize = 0;
        while j < kinds.len()
            invariant
                j <= kinds.len(),
                i < listed.len(),
                found == exists|a: int| 0 <= a < j && kinds[a] == listed[i as int],
            decreases kinds.len() - j,
        {
            if kinds[j] == listed[i] {
                found = true;
            }
            j = j + 1;
        }
        proof {
            let upto = listed@.take(i + 1);
            assert(upto.drop_last() =~= listed@.take(i as int));
        }
        if !found {
            kinds.push(listed[i]);
        }
        i = i + 1;
    }
    assert(listed@.take(i as int) =~= listed@);
    kinds
}

impl Aggregator {
    /// An aggregator that has no results.
    pub fn new() -> (r: Aggregator)
        ensures
            r@ == Seq::<RunResultView>::empty(),
    {
        Aggregator { results: Vec::new() }
    }

    /// Takes in the result of a run, behind those taken in before.
    pub fn ingest(&mut self, result: RunResult)
        ensures
            final(self)@ == old(self)@.push(result@),
    {
        self.results.push(result);
    }

    /// The number of results taken in.
    pub fn len(&self) -> (r: usize)
        ensures
            r == self@.len(),
    {
        self.results.len()
    }

    fn names(&self, group: &String, naming: Naming) -> (r: Vec<String>)
        ensures
            views(r@) == names_seen(self@, group@, naming),
    {
        let mut names: Vec<String> = Vec::new();
        let mut i: usize = 0;
        while i < self.results.len()
            invariant
                i <= self.results.len(),
                views(names@) == names_seen(self@.take(i as int), group@, naming),
            decreases self.results.len() - i,
        {
            let result = &self.results[i];
            proof {
                let upto = self@.take(i + 1);
                assert(upto.drop_last() =~= self@.take(i as int));
            }
            let name = match naming {
                Naming::TestCase => &result.test_case_name,
                Naming::Profile => &result.profile_label,
            };
            if result.group == *group && !contains_name(&names, name) {
                names.push(name.clone());
            }
            i = i + 1;
        }
        assert(self@.take(i as int) =~= self@);
        names
    }

    fn failures(&self, group: &String) -> (r: Vec<Failure>)
        ensures
            Seq::new(r@.len(), |f: int| r@[f]@) == failures_among(self@, group@),
    {
        let mut failures: Vec<Failure> = Vec::new();
        let mut i: usize = 0;
        while i < self.results.len()
            invariant
                i <= self.results.len(),
                Seq::new(failures@.len(), |f: int| failures@[f]@) == failures_among(
                    self@.take(i as int),
                    group@,
                ),
            decreases self.results.len() - i,
        {
            let result = &self.results[i];
            proof {
                let upto = self@.take(i + 1);
                assert(upto.drop_last() =~= self@.take(i as int));
            }
            if result.group == *group && !result.succeeded {
                let failure = Failure {
                    test_case_name: result.test_case_name.clone(),
                    profile_label: result.profile_label.clone(),
                    error: result.error,
                };
                failures.push(failure);
            }
            i = i + 1;
        }
        assert(self@.take(i as int) =~= self@);
        failures
    }

    fn point(&self, group: &String, case: &String, label: &String, kind: MetricKind) -> (r: Option<
        u32,
    >)
        ensures
            r == point(self@, group@, case@, label@, kind),
    {
        let mut i: usize = 0;
        while i < self.results.len()
            invariant
                i <= self.results.len(),
                run_value(self@.take(i as int), group@, case@, label@, kind) is None,
            decreases self.results.len() - i,
        {
            let result = &self.results[i];
            proof {
                let upto = self@.take(i + 1);
                assert(upto.drop_last() =~= self@.take(i as int));
            }
            if result.group == *group && result.test_case_name == *case && result.profile_label
                == *label {
                proof {
                    lemma_run_value_stays(self@, i + 1, group@, case@, label@, kind);
                }
                if result.succeeded {
                    return find_metric(&result.metrics, kind);
                } else {
                    return None;
                }
            }
            i = i + 1;
        }
        assert(self@.take(i as int) =~= self@);
        None
    }

    fn series(&self, group: &String, case: &String, axis: &Vec<String>, kind: MetricKind) -> (r:
        Series)
        ensures
            r@ == series_for(self@, group@, case@, views(axis@), kind),
    {
        let mut points: Vec<Option<u32>> = Vec::new();
        let mut x: usize = 0;
        while x < axis.len()
            invariant
                x <= axis.len(),
                points.len() == x,
                forall|a: int|
                    0 <= a < x ==> points[a] == point(self@, group@, case@, axis[a]@, kind),
            decreases axis.len() - x,
        {
            points.push(self.point(group, case, &axis[x], kind));
            x = x + 1;
        }
        Series { test_case_name: case.clone(), points }
    }

    fn chart(&self, group: &String, cases: &Vec<String>, axis: &Vec<String>, kind: MetricKind) -> (r:
        Chart)
        ensures
            r@ == chart_for(self@, group@, views(cases@), views(axis@), kind),
    {
        let mut series: Vec<Series> = Vec::new();
        let mut c: usize = 0;
        while c < cases.len()
            invariant
                c <= cases.len(),
                series.len() == c,
                forall|a: int|
                    0 <= a < c ==> series[a]@ == series_for(
                        self@,
                        group@,
                        cases[a]@,
                        views(axis@),
                        kind,
                    ),
            decreases cases.len() - c,
        {
            series.push(self.series(group, &cases[c], axis, kind));
            c = c + 1;
        }
        Chart { dimension: kind, series }
    }

    /// Reports on `group` from the results taken in so far.
    pub fn finalize(&self, group: &GroupConfig) -> (r: Report)
        ensures
            r@ == spec_finalize(self@, group@),
    {
        let cases = self.names(&group.name, Naming::TestCase);
        let labels = self.names(&group.name, Naming::Profile);
        let mut axis: Vec<String> = Vec::new();
        assert(views(axis@) =~= Seq::empty());
        extend_with(&mut axis, &group.x_axis_labels, &labels);
        extend_with(&mut axis, &labels, &labels);
        let kinds = distinct_kinds(&group.chart_dimensions);
        let mut charts: Vec<Chart> = Vec::new();
        let mut d: usize = 0;
        while d < kinds.len()
            invariant
                d <= kinds.len(),
                charts.len() == d,
                forall|a: int|
                    0 <= a < d ==> charts[a]@ == chart_for(
                        self@,
                        group.name@,
                        views(cases@),
                        views(axis@),
                        kinds[a],
                    ),
            decreases kinds.len() - d,
        {
            charts.push(self.chart(&group.name, &cases, &axis, kinds[d]));
            d = d + 1;
        }
        let failures = self.failures(&group.name);
        Report { group: group.name.clone(), x_axis: axis, charts, failures }
    }
}

/// Once a run has a result, later results do not change what the run gives.
pub proof fn lemma_run_value_stays(
    results: Seq<RunResultView>,
    upto: int,
    group: Seq<char>,
    case: Seq<char>,
    label: Seq<char>,
    kind: MetricKind,
)
    requires
        0 <= upto <= results.len(),
        run_value(results.take(upto), group, case, label, kind) is Some,
    ensures
        run_value(results, group, case, label, kind) == run_value(
            results.take(upto),
            group,
            case,
            label,
            kind,
        ),
    decreases results.len() - upto,
{
    if upto < results.len() {
        assert(results.take(upto + 1).drop_last() =~= results.take(upto));
        lemma_run_value_stays(results, upto + 1, group, case, label, kind);
    } else {
        assert(results.take(upto) =~= results);
    }
}

/// The first result of a run decides its point: the value of the metric if the run
/// succeeded, a gap if it failed.
pub proof fn lemma_first_result_decides(
    results: Seq<RunResultView>,
    i: int,
    group: Seq<char>,
    kind: MetricKind,
)
    requires
        0 <= i < results.len(),
        results[i].group == group,
        forall|j: int|
            0 <= j < i ==> !is_run(
                #[trigger] results[j],
                group,
                results[i].test_case_name,
                results[i].profile_label,
            ),
    ensures
        point(results, group, results[i].test_case_name, results[i].profile_label, kind)
            == value_of(results[i], kind),
        !results[i].succeeded ==> point(
            results,
            group,
            results[i].test_case_name,
            results[i].profile_label,
            kind,
        ) is None,
{
    let case = results[i].test_case_name;
    let label = results[i].profile_label;
    lemma_no_run_no_value(results.take(i), group, case, label, kind);
    assert(results.take(i + 1).drop_last() =~= results.take(i));
    lemma_run_value_stays(results, i + 1, group, case, label, kind);
}

/// Where no result is of the run, the run gives nothing: its point is a gap.
pub proof fn lemma_no_run_no_value(
    results: Seq<RunResultView>,
    group: Seq<char>,
    case: Seq<char>,
    label: Seq<char>,
    kind: MetricKind,
)
    requires
        forall|j: int| 0 <= j < results.len() ==> !is_run(#[trigger] results[j], group, case, label),
    ensures
        run_value(results, group, case, label, kind) is None,
        point(results, group, case, label, kind) is None,
    decreases results.len(),
{
    if results.len() > 0 {
        lemma_no_run_no_value(results.drop_last(), group, case, label, kind);
    }
}

/// Whether `failure` is how some failed run of `group` among `results` is listed.
pub open spec fn is_failure_of(
    results: Seq<RunResultView>,
    group: Seq<char>,
    failure: FailureView,
) -> bool {
    exists|i: int|
        0 <= i < results.len() && (#[trigger] results[i]).group == group && !results[i].succeeded
            && failure_of(results[i]) == failure
}

/// Every failed run of the group is listed among its failures, and nothing else is.
pub proof fn lemma_failures_are_the_failed_runs(results: Seq<RunResultView>, group: Seq<char>)
    ensures
        forall|failure: FailureView| #[trigger]
            failures_among(results, group).contains(failure) <==> is_failure_of(
                results,
                group,
                failure,
            ),
    decreases results.len(),
{
    if results.len() > 0 {
        let head = results.drop_last();
        lemma_failures_are_the_failed_runs(head, group);
        let earlier = failures_among(head, group);
        let all = failures_among(results, group);
        assert forall|failure: FailureView| #[trigger]
            all.contains(failure) <==> is_failure_of(results, group, failure) by {
            if all.contains(failure) {
                let k = choose|k: int| 0 <= k < all.len() && all[k] == failure;
                if k < earlier.len() {
                    assert(earlier.contains(failure));
                }
            }
            if is_failure_of(results, group, failure) {
                let i = choose|i: int|
                    0 <= i < results.len() && (#[trigger] results[i]).group == group
                        && !results[i].succeeded && failure_of(results[i]) == failure;
                if i < head.len() {
                    assert(head[i] == results[i]);
                    assert(earlier.contains(failure));
                    let k = choose|k: int| 0 <= k < earlier.len() && earlier[k] == failure;
                    assert(all[k] == failure);
                } else {
                    assert(all[all.len() - 1] == failure);
                }
            }
        }
    }
}

/// Extending a list without repetition by names keeps it without repetition, and adds
/// exactly those candidates that occur in `among`.
pub proof fn lemma_extended(
    chosen: Seq<Seq<char>>,
    candidates: Seq<Seq<char>>,
    among: Seq<Seq<char>>,
)
    requires
        crate::text::distinct(chosen),
    ensures
        crate::text::distinct(extended(chosen, candidates, among)),
        chosen.len() <= extended(chosen, candidates, among).len(),
        extended(chosen, candidates, among).take(chosen.len() as int) == chosen,
        forall|name: Seq<char>| #[trigger]
            extended(chosen, candidates, among).contains(name) <==> chosen.contains(name) || (
            among.contains(name) && candidates.contains(name)),
    decreases candidates.len(),
{
    if candidates.len() > 0 {
        let head = candidates.drop_last();
        lemma_extended(chosen, head, among);
        let earlier = extended(chosen, head, among);
        let all = extended(chosen, candidates, among);
        assert(all.take(chosen.len() as int) =~= chosen);
        assert forall|name: Seq<char>| #[trigger]
            all.contains(name) <==> chosen.contains(name) || (among.contains(name)
                && candidates.contains(name)) by {
            if all.contains(name) {
                let k = choose|k: int| 0 <= k < all.len() && all[k] == name;
                if k < earlier.len() {
                    assert(earlier.contains(name));
                }
            }
            if among.contains(name) && candidates.contains(name) {
                let c = choose|c: int| 0 <= c < candidates.len() && candidates[c] == name;
                if c < head.len() {
                    assert(head[c] == name);
                    assert(earlier.contains(name));
                    let k = choose|k: int| 0 <= k < earlier.len() && earlier[k] == name;
                    assert(all[k] == name);
                } else if !earlier.contains(name) {
                    assert(all[all.len() - 1] == name);
                }
            }
        }
    }
}

/// The names that were seen are the names of the results of the group, each once.
pub proof fn lemma_names_seen(results: Seq<RunResultView>, group: Seq<char>, naming: Naming)
    ensures
        crate::text::distinct(names_seen(results, group, naming)),
        forall|name: Seq<char>| #[trigger]
            names_seen(results, group, naming).contains(name) <==> exists|i: int|
                0 <= i < results.len() && (#[trigger] results[i]).group == group && name_by(
                    results[i],
                    naming,
                ) == name,
    decreases results.len(),
{
    if results.len() > 0 {
        let head = results.drop_last();
        lemma_names_seen(head, group, naming);
        let earlier = names_seen(head, group, naming);
        let all = names_seen(results, group, naming);
        assert forall|name: Seq<char>| #[trigger]
            all.contains(name) <==> exists|i: int|
                0 <= i < results.len() && (#[trigger] results[i]).group == group && name_by(
                    results[i],
                    naming,
                ) == name by {
            if all.contains(name) {
                let k = choose|k: int| 0 <= k < all.len() && all[k] == name;
                if k < earlier.len() {
                    assert(earlier.contains(name));
                }
            }
            if exists|i: int|
                0 <= i < results.len() && (#[trigger] results[i]).group == group && name_by(
                    results[i],
                    naming,
                ) == name {
                let i = choose|i: int|
                    0 <= i < results.len() && (#[trigger] results[i]).group == group && name_by(
                        results[i],
                        naming,
                    ) == name;
                if i < head.len() {
                    assert(head[i] == results[i]);
                    assert(earlier.contains(name));
                    let k = choose|k: int| 0 <= k < earlier.len() && earlier[k] == name;
                    assert(all[k] == name);
                } else if !earlier.contains(name) {
                    assert(all[all.len() - 1] == name);
                }
            }
        }
    }
}

/// The horizontal axis holds the profile labels that were seen in the group, each
/// once. The labels that the group lists come first, in the order of the list; where
/// the group lists none, the axis is in the order in which the labels were seen.
pub proof fn lemma_axis(listed: Seq<Seq<char>>, seen: Seq<Seq<char>>)
    requires
        crate::text::distinct(seen),
    ensures
        crate::text::distinct(x_axis(listed, seen)),
        forall|name: Seq<char>| #[trigger] x_axis(listed, seen).contains(name) <==> seen.contains(name),
        x_axis(listed, seen).len() == seen.len(),
        x_axis(listed, seen).take(extended(Seq::empty(), listed, seen).len() as int) == extended(
            Seq::empty(),
            listed,
            seen,
        ),
        listed.len() == 0 ==> x_axis(listed, seen) == seen,
{
    let first = extended(Seq::empty(), listed, seen);
    lemma_extended(Seq::empty(), listed, seen);
    lemma_extended(first, seen, seen);
    let axis = x_axis(listed, seen);
    lemma_same_names_same_length(axis, seen);
    if listed.len() == 0 {
        lemma_extended_by_itself(seen, seen.len() as int);
        assert(seen.take(seen.len() as int) =~= seen);
    }
}

proof fn lemma_extended_by_itself(seen: Seq<Seq<char>>, count: int)
    requires
        crate::text::distinct(seen),
        0 <= count <= seen.len(),
    ensures
        extended(Seq::empty(), seen.take(count), seen) == seen.take(count),
    decreases count,
{
    if count > 0 {
        lemma_extended_by_itself(seen, count - 1);
        let upto = seen.take(count);
        assert(upto.drop_last() =~= seen.take(count - 1));
    }
}

proof fn lemma_same_names_same_length(a: Seq<Seq<char>>, b: Seq<Seq<char>>)
    requires
        crate::text::distinct(a),
        crate::text::distinct(b),
        forall|name: Seq<char>| #[trigger] a.contains(name) <==> b.contains(name),
    ensures
        a.len() == b.len(),
{
    a.unique_seq_to_set();
    b.unique_seq_to_set();
    assert(a.to_set() =~= b.to_set());
}

proof fn lemma_names_seen_of_group(results: Seq<RunResultView>, group: Seq<char>, naming: Naming)
    ensures
        names_seen(results, group, naming) == names_seen(of_group(results, group), group, naming),
    decreases results.len(),
{
    reveal(Seq::filter);
    if results.len() > 0 {
        lemma_names_seen_of_group(results.drop_last(), group, naming);
        let own = of_group(results.drop_last(), group);
        if results.last().group == group {
            assert(own.push(results.last()).drop_last() =~= own);
        }
    }
}

proof fn lemma_failures_of_group(results: Seq<RunResultView>, group: Seq<char>)
    ensures
        failures_among(results, group) == failures_among(of_group(results, group), group),
    decreases results.len(),
{
    reveal(Seq::filter);
    if results.len() > 0 {
        lemma_failures_of_group(results.drop_last(), group);
        let own = of_group(results.drop_last(), group);
        if results.last().group == group {
            assert(own.push(results.last()).drop_last() =~= own);
        }
    }
}

proof fn lemma_run_value_of_group(
    results: Seq<RunResultView>,
    group: Seq<char>,
    case: Seq<char>,
    label: Seq<char>,
    kind: MetricKind,
)
    ensures
        run_value(results, group, case, label, kind) == run_value(
            of_group(results, group),
            group,
            case,
            label,
            kind,
        ),
    decreases results.len(),
{
    reveal(Seq::filter);
    if results.len() > 0 {
        lemma_run_value_of_group(results.drop_last(), group, case, label, kind);
        let own = of_group(results.drop_last(), group);
        if results.last().group == group {
            assert(own.push(results.last()).drop_last() =~= own);
        }
    }
}

/// The report of a group is made of the results of that group alone: results of
/// other groups, wherever they stand, change nothing of it.
pub proof fn lemma_groups_are_independent(
    results: Seq<RunResultView>,
    others: Seq<RunResultView>,
    group: GroupConfigView,
)
    requires
        of_group(results, group.name) == of_group(others, group.name),
    ensures
        spec_finalize(results, group) == spec_finalize(others, group),
{
    let name = group.name;
    lemma_names_seen_of_group(results, name, Naming::TestCase);
    lemma_names_seen_of_group(others, name, Naming::TestCase);
    lemma_names_seen_of_group(results, name, Naming::Profile);
    lemma_names_seen_of_group(others, name, Naming::Profile);
    lemma_failures_of_group(results, name);
    lemma_failures_of_group(others, name);
    let cases = names_seen(results, name, Naming::TestCase);
    let axis = x_axis(group.x_axis_labels, names_seen(results, name, Naming::Profile));
    let kinds = kinds_listed(group.chart_dimensions);
    assert forall|case: Seq<char>, label: Seq<char>, kind: MetricKind| #[trigger]
        point(results, name, case, label, kind) == point(others, name, case, label, kind) by {
        lemma_run_value_of_group(results, name, case, label, kind);
        lemma_run_value_of_group(others, name, case, label, kind);
    }
    assert forall|d: int| 0 <= d < kinds.len() implies #[trigger] chart_for(
        results,
        name,
        cases,
        axis,
        kinds[d],
    ) == chart_for(others, name, cases, axis, kinds[d]) by {
        let a = chart_for(results, name, cases, axis, kinds[d]);
        let b = chart_for(others, name, cases, axis, kinds[d]);
        assert forall|c: int| 0 <= c < cases.len() implies a.series[c] == b.series[c] by {}
    }
}

} // verus!
