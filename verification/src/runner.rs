//! The runner: which step of which run comes next, and what each run leaves behind.
//!
//! The runner performs nothing itself. It tells its caller what to do next, is told
//! what came of it, and keeps the book of results. Runs are taken strictly one after
//! the other, and a run that fails is recorded and followed by the next.

use vstd::prelude::*;
use crate::config::{GroupConfig, TestCaseConfig};
use crate::error::{ConfigurationError, RunError};
use crate::matrix::{expand, is_expansion, lemma_expansion_identities, rejection, RunPlan};
use crate::network::NetworkProfile;
use crate::score::{assemble, spec_assemble, MetricSample, SeriesPoint};
use crate::segment::{scoring_plan, scoring_segments, Segment};
use crate::text::views;

verus! {

/// Where the runner stands within the run at hand.
#[derive(Clone, Copy, Debug, PartialEq, Eq, Structural)]
pub enum Phase {
    /// No run is at hand: every planned run has been recorded.
    Idle,
    /// The participants and their infrastructure are being started.
    Starting,
    /// The impairment schedule is being started.
    Scheduling,
    /// The call is under way.
    InCall,
    /// Capture is being stopped and the artifacts retrieved.
    Capturing,
    /// The artifacts are being scored.
    Scoring,
    /// What the run started is being stopped.
    TearingDown,
}

/// Why a run failed, and at which step.
#[derive(Clone, Copy, Debug, PartialEq, Eq, Structural)]
pub struct ErrorInfo {
    pub error: RunError,
    pub during: Phase,
}

/// What a run left behind.
#[derive(Clone, Debug, PartialEq, Eq)]
pub struct RunResult {
    pub group: String,
    pub test_case_name: String,
    pub profile_label: String,
    pub metrics: Vec<MetricSample>,
    pub series: Vec<SeriesPoint>,
    pub artifact_paths: Vec<String>,
    pub succeeded: bool,
    pub error: Option<ErrorInfo>,
}

/// The value of a `RunResult`.
#[verifier::ext_equal]
pub struct RunResultView {
    pub group: Seq<char>,
    pub test_case_name: Seq<char>,
    pub profile_label: Seq<char>,
    pub metrics: Seq<MetricSample>,
    pub series: Seq<SeriesPoint>,
    pub artifact_paths: Seq<Seq<char>>,
    pub succeeded: bool,
    pub error: Option<ErrorInfo>,
}

impl View for RunResult {
    type V = RunResultView;

    open spec fn view(&self) -> RunResultView {
        RunResultView {
            group: self.group@,
            test_case_name: self.test_case_name@,
            profile_label: self.profile_label@,
            metrics: self.metrics@,
            series: self.series@,
            artifact_paths: views(self.artifact_paths@),
            succeeded: self.succeeded,
            error: self.error,
        }
    }
}

/// The values of a list of results, in order.
pub open spec fn result_views(results: Seq<RunResult>) -> Seq<RunResultView> {
    Seq::new(results.len(), |k: int| results[k]@)
}

/// What the caller reports to the runner.
#[derive(Clone, Debug, PartialEq, Eq)]
pub enum Event {
    /// Every process of the run is up.
    InfrastructureStarted,
    /// The impairment schedule is being applied.
    SchedulerStarted,
    /// The call lasted as long as it was meant to.
    CallCompleted,
    /// Capture has stopped. `paths` are the recordings and traces of the run;
    /// `reference_ms` is the length of the reference sound, or zero if the call is
    /// not to be cut any finer than its network conditions change.
    ArtifactsRetrieved { paths: Vec<String>, reference_ms: u64 },
    /// The scoring tool has scored every segment it was given, in order.
    Scored { scores: Vec<u32> },
    /// Nothing that the run started is left.
    TornDown,
    /// The step at hand failed.
    Failed { error: RunError },
}

/// What the runner asks of its caller.
#[derive(Clone, Copy, Debug, PartialEq, Eq, Structural)]
pub enum Action {
    /// Start the participants and infrastructure of the run.
    StartInfrastructure { run: usize },
    /// Start applying the timeline of the run, counted from now.
    StartScheduler { run: usize },
    /// Wait until the call has lasted its duration, or a participant leaves.
    AwaitCallEnd { run: usize },
    /// Stop capture and retrieve the artifacts.
    StopCapture { run: usize },
    /// Score each segment of the run.
    Score { run: usize },
    /// Cancel the schedule and every wait of the run and stop its participants; with
    /// `full_reset`, stop the shared infrastructure too.
    TearDown { run: usize, full_reset: bool },
    /// Nothing: every planned run has been recorded.
    Finished,
}

/// The state of a runner.
#[verifier::ext_equal]
pub struct RunnerView {
    /// Every run that was planned, in the order in which the runs are taken.
    pub plans: Seq<RunPlan>,
    /// The number of runs that have been recorded, which is the position of the run
    /// at hand.
    pub cursor: int,
    pub phase: Phase,
    /// Why the run at hand has failed, if it has.
    pub failure: Option<ErrorInfo>,
    pub artifacts: Seq<Seq<char>>,
    pub segments: Seq<Segment>,
    pub metrics: Seq<MetricSample>,
    pub series: Seq<SeriesPoint>,
    /// The results that have not been reported yet.
    pub results: Seq<RunResultView>,
    /// The number of results that have been reported.
    pub reported: int,
}

/// Whether `result` is the result of the run `plan`.
pub open spec fn answers(result: RunResultView, plan: RunPlan) -> bool {
    &&& result.group == plan.group@
    &&& result.test_case_name == plan.test_case_name@
    &&& result.profile_label == plan.profile_label@
    &&& result.succeeded <==> result.error is None
}

/// What holds of a runner at all times: each run that was taken has left exactly one
/// result, in the order of the plans, the runner rests only when no run is left, and
/// a run that has failed is being torn down.
pub open spec fn inv(v: RunnerView) -> bool {
    &&& 0 <= v.cursor <= v.plans.len()
    &&& (v.phase == Phase::Idle <==> v.cursor == v.plans.len())
    &&& 0 <= v.reported
    &&& v.reported + v.results.len() == v.cursor
    &&& v.failure is Some ==> v.phase == Phase::TearingDown
    &&& forall|k: int|
        0 <= k < v.results.len() ==> answers(#[trigger] v.results[k], v.plans[v.reported + k])
}

/// A runner that has nothing planned.
pub open spec fn initial() -> RunnerView {
    RunnerView {
        plans: Seq::empty(),
        cursor: 0,
        phase: Phase::Idle,
        failure: None,
        artifacts: Seq::empty(),
        segments: Seq::empty(),
        metrics: Seq::empty(),
        series: Seq::empty(),
        results: Seq::empty(),
        reported: 0,
    }
}

/// The place of a phase in the order of the steps of a run.
pub open spec fn rank(phase: Phase) -> int {
    match phase {
        Phase::Idle => 0,
        Phase::Starting => 0,
        Phase::Scheduling => 1,
        Phase::InCall => 2,
        Phase::Capturing => 3,
        Phase::Scoring => 4,
        Phase::TearingDown => 5,
    }
}

/// The largest number of events that can still be accepted.
pub open spec fn work_left(v: RunnerView) -> int {
    6 * (v.plans.len() - v.cursor) - rank(v.phase)
}

/// Whether a failure leaves the shared infrastructure in doubt, so that it must be
/// stopped with the run: a process that did not start, or a wait that ran out.
pub open spec fn needs_full_reset(error: RunError) -> bool {
    error == RunError::ProcessStartFailed || error == RunError::Timeout
}

/// Whether `event` is what the step of `phase` is waiting for. A failure is accepted
/// whenever a run is at hand.
pub open spec fn accepts(phase: Phase, event: Event) -> bool {
    match event {
        Event::InfrastructureStarted => phase == Phase::Starting,
        Event::SchedulerStarted => phase == Phase::Scheduling,
        Event::CallCompleted => phase == Phase::InCall,
        Event::ArtifactsRetrieved { .. } => phase == Phase::Capturing,
        Event::Scored { .. } => phase == Phase::Scoring,
        Event::TornDown => phase == Phase::TearingDown,
        Event::Failed { .. } => phase != Phase::Idle,
    }
}

/// The result of the run at hand as it stands. A failed run has no metrics.
pub open spec fn outcome(v: RunnerView) -> RunResultView {
    RunResultView {
        group: v.plans[v.cursor].group@,
        test_case_name: v.plans[v.cursor].test_case_name@,
        profile_label: v.plans[v.cursor].profile_label@,
        metrics: if v.failure is None {
            v.metrics
        } else {
            Seq::empty()
        },
        series: if v.failure is None {
            v.series
        } else {
            Seq::empty()
        },
        artifact_paths: v.artifacts,
        succeeded: v.failure is None,
        error: v.failure,
    }
}

/// The runner after the run at hand was recorded: at the start of the next run, or at
/// rest.
pub open spec fn complete(v: RunnerView) -> RunnerView {
    RunnerView {
        plans: v.plans,
        cursor: v.cursor + 1,
        phase: if v.cursor + 1 < v.plans.len() {
            Phase::Starting
        } else {
            Phase::Idle
        },
        failure: None,
        artifacts: Seq::empty(),
        segments: Seq::empty(),
        metrics: Seq::empty(),
        series: Seq::empty(),
        results: v.results.push(outcome(v)),
        reported: v.reported,
    }
}

/// The runner after the step at hand failed with `error`: the first failure of a run
/// is the one recorded. A run that fails before it is torn down is torn down next; a
/// run that fails while it is torn down is recorded at once.
pub open spec fn fail(v: RunnerView, error: RunError) -> RunnerView {
    let failure = if v.failure is Some {
        v.failure
    } else {
        Some(ErrorInfo { error, during: v.phase })
    };
    if v.phase == Phase::TearingDown {
        complete(RunnerView { failure, ..v })
    } else {
        RunnerView { failure, phase: Phase::TearingDown, ..v }
    }
}

/// The runner after `event`. An event that the step at hand is not waiting for
/// changes nothing.
pub open spec fn next(v: RunnerView, event: Event) -> RunnerView {
    if !accepts(v.phase, event) {
        v
    } else {
        match event {
            Event::InfrastructureStarted => RunnerView { phase: Phase::Scheduling, ..v },
            Event::SchedulerStarted => RunnerView { phase: Phase::InCall, ..v },
            Event::CallCompleted => RunnerView { phase: Phase::Capturing, ..v },
            Event::ArtifactsRetrieved { paths, reference_ms } => RunnerView {
                phase: Phase::Scoring,
                artifacts: views(paths@),
                segments: scoring_segments(
                    v.plans[v.cursor].analysis_mode,
                    v.plans[v.cursor].timeline@,
                    v.plans[v.cursor].duration_ms as int,
                    reference_ms as int,
                ),
                ..v
            },
            Event::Scored { scores } => match spec_assemble(
                v.plans[v.cursor].analysis_mode,
                v.segments,
                scores@,
            ) {
                Some((metrics, series)) => RunnerView {
                    phase: Phase::TearingDown,
                    metrics,
                    series,
                    ..v
                },
                None => fail(v, RunError::ScoringFailed),
            },
            Event::TornDown => complete(v),
            Event::Failed { error } => fail(v, error),
        }
    }
}

/// What the runner asks for in the state `v`.
pub open spec fn action(v: RunnerView) -> Action {
    let run = v.cursor as usize;
    match v.phase {
        Phase::Idle => Action::Finished,
        Phase::Starting => Action::StartInfrastructure { run },
        Phase::Scheduling => Action::StartScheduler { run },
        Phase::InCall => Action::AwaitCallEnd { run },
        Phase::Capturing => Action::StopCapture { run },
        Phase::Scoring => Action::Score { run },
        Phase::TearingDown => Action::TearDown {
            run,
            full_reset: v.failure matches Some(info) && needs_full_reset(info.error),
        },
    }
}

/// The runner after more runs were planned: they wait behind those planned before,
/// and a runner at rest takes up the first of them.
pub open spec fn enqueued(v: RunnerView, plans: Seq<RunPlan>) -> RunnerView {
    RunnerView {
        plans,
        phase: if v.phase == Phase::Idle && plans.len() > v.plans.len() {
            Phase::Starting
        } else {
            v.phase
        },
        ..v
    }
}

/// The runner after its results were reported: none is left to report.
pub open spec fn cleared(v: RunnerView) -> RunnerView {
    RunnerView { results: Seq::empty(), reported: v.reported + v.results.len(), ..v }
}

/// Keeps the book of a test set: the runs that are planned, the step at hand, and the
/// results so far.
pub struct Runner {
    plans: Vec<RunPlan>,
    cursor: usize,
    phase: Phase,
    failure: Option<ErrorInfo>,
    artifacts: Vec<String>,
    segments: Vec<Segment>,
    metrics: Vec<MetricSample>,
    series: Vec<SeriesPoint>,
    results: Vec<RunResult>,
    reported: usize,
}

impl View for Runner {
    type V = RunnerView;

    closed spec fn view(&self) -> RunnerView {
        RunnerView {
            plans: self.plans@,
            cursor: self.cursor as int,
            phase: self.phase,
            failure: self.failure,
            artifacts: views(self.artifacts@),
            segments: self.segments@,
            metrics: self.metrics@,
            series: self.series@,
            results: result_views(self.results@),
            reported: self.reported as int,
        }
    }
}

impl Runner {
    /// A runner that has nothing planned.
    pub fn new() -> (r: Runner)
        ensures
            r@ == initial(),
            inv(r@),
    {
        Runner {
            plans: Vec::new(),
            cursor: 0,
            phase: Phase::Idle,
            failure: None,
            artifacts: Vec::new(),
            segments: Vec::new(),
            metrics: Vec::new(),
            series: Vec::new(),
            results: Vec::new(),
            reported: 0,
        }
    }

    /// Plans the runs of a group: every case under every profile, behind the runs
    /// that are planned already. Returns the number of runs added. A group that
    /// cannot be run is rejected as a whole and leaves the runner as it was.
    pub fn enqueue(
        &mut self,
        group: &GroupConfig,
        cases: &Vec<TestCaseConfig>,
        profiles: &Vec<NetworkProfile>,
    ) -> (r: Result<usize, ConfigurationError>)
        requires
            inv(old(self)@),
        ensures
            inv(final(self)@),
            match r {
                Ok(added) => {
                    &&& rejection(cases@, profiles@) is None
                    &&& added == cases@.len() * profiles@.len()
                    &&& final(self)@ == enqueued(old(self)@, final(self)@.plans)
                    &&& final(self)@.plans.take(old(self)@.plans.len() as int) == old(self)@.plans
                    &&& is_expansion(
                        final(self)@.plans.skip(old(self)@.plans.len() as int),
                        group.name@,
                        cases@,
                        profiles@,
                    )
                },
                Err(e) => rejection(cases@, profiles@) == Some(e) && final(self)@ == old(self)@,
            },
    {
        match expand(group, cases, profiles) {
            Err(e) => Err(e),
            Ok(more) => {
                let mut more = more;
                let added: usize = more.len();
                self.plans.append(&mut more);
                if added > 0 {
                    match self.phase {
                        Phase::Idle => {
                            self.phase = Phase::Starting;
                        },
                        _ => {},
                    }
                }
                Ok(added)
            },
        }
    }

    /// What the caller is to do next.
    pub fn action(&self) -> (r: Action)
        requires
            inv(self@),
        ensures
            r == action(self@),
    {
        let run: usize = self.cursor;
        match self.phase {
            Phase::Idle => Action::Finished,
            Phase::Starting => Action::StartInfrastructure { run },
            Phase::Scheduling => Action::StartScheduler { run },
            Phase::InCall => Action::AwaitCallEnd { run },
            Phase::Capturing => Action::StopCapture { run },
            Phase::Scoring => Action::Score { run },
            Phase::TearingDown => {
                let full_reset = match self.failure {
                    Some(info) => match info.error {
                        RunError::ProcessStartFailed => true,
                        RunError::Timeout => true,
                        _ => false,
                    },
                    None => false,
                };
                Action::TearDown { run, full_reset }
            },
        }
    }

    fn record(&mut self)
        requires
            inv(old(self)@),
            old(self)@.phase != Phase::Idle,
        ensures
            final(self)@ == complete(old(self)@),
            inv(final(self)@),
    {
        let ghost before = self@;
        assert(self.cursor < self.plans.len());
        let failed = self.failure.is_some();
        let mut metrics: Vec<MetricSample> = Vec::new();
        let mut series: Vec<SeriesPoint> = Vec::new();
        let mut artifact_paths: Vec<String> = Vec::new();
        if !failed {
            std::mem::swap(&mut self.metrics, &mut metrics);
            std::mem::swap(&mut self.series, &mut series);
        }
        std::mem::swap(&mut self.artifacts, &mut artifact_paths);
        let plan = &self.plans[self.cursor];
        let result = RunResult {
            group: plan.group.clone(),
            test_case_name: plan.test_case_name.clone(),
            profile_label: plan.profile_label.clone(),
            metrics,
            series,
            artifact_paths,
            succeeded: !failed,
            error: self.failure,
        };
        self.results.push(result);
        self.cursor = self.cursor + 1;
        self.phase = if self.cursor < self.plans.len() {
            Phase::Starting
        } else {
            Phase::Idle
        };
        self.failure = None;
        self.artifacts = Vec::new();
        self.segments = Vec::new();
        self.metrics = Vec::new();
        self.series = Vec::new();
        proof {
            lemma_complete_keeps_invariant(before);
        }
    }

    fn note_failure(&mut self, error: RunError)
        requires
            inv(old(self)@),
            old(self)@.phase != Phase::Idle,
        ensures
            final(self)@ == fail(old(self)@, error),
            inv(final(self)@),
    {
        if self.failure.is_none() {
            self.failure = Some(ErrorInfo { error, during: self.phase });
        }
        match self.phase {
            Phase::TearingDown => {
                self.record();
            },
            _ => {
                self.phase = Phase::TearingDown;
            },
        }
    }

    /// Takes note of what came of the step at hand and moves on. Says whether the
    /// event was what the step was waiting for; if it was not, nothing changes.
    pub fn handle(&mut self, event: Event) -> (accepted: bool)
        requires
            inv(old(self)@),
        ensures
            inv(final(self)@),
            accepted == accepts(old(self)@.phase, event),
            final(self)@ == next(old(self)@, event),
    {
        match event {
            Event::InfrastructureStarted => match self.phase {
                Phase::Starting => {
                    self.phase = Phase::Scheduling;
                    true
                },
                _ => false,
            },
            Event::SchedulerStarted => match self.phase {
                Phase::Scheduling => {
                    self.phase = Phase::InCall;
                    true
                },
                _ => false,
            },
            Event::CallCompleted => match self.phase {
                Phase::InCall => {
                    self.phase = Phase::Capturing;
                    true
                },
                _ => false,
            },
            Event::ArtifactsRetrieved { paths, reference_ms } => match self.phase {
                Phase::Capturing => {
                    let plan = &self.plans[self.cursor];
                    let segments = scoring_plan(
                        plan.analysis_mode,
                        &plan.timeline,
                        plan.duration_ms,
                        reference_ms,
                    );
                    self.segments = segments;
                    self.artifacts = paths;
                    self.phase = Phase::Scoring;
                    true
                },
                _ => false,
            },
            Event::Scored { scores } => match self.phase {
                Phase::Scoring => {
                    let mode = self.plans[self.cursor].analysis_mode;
                    match assemble(mode, &self.segments, &scores) {
                        Some(report) => {
                            self.metrics = report.metrics;
                            self.series = report.series;
                            self.phase = Phase::TearingDown;
                        },
                        None => {
                            self.note_failure(RunError::ScoringFailed);
                        },
                    }
                    true
                },
                _ => false,
            },
            Event::TornDown => match self.phase {
                Phase::TearingDown => {
                    self.record();
                    true
                },
                _ => false,
            },
            Event::Failed { error } => match self.phase {
                Phase::Idle => false,
                _ => {
                    self.note_failure(error);
                    true
                },
            },
        }
    }

    /// Hands out the results that were recorded since the last report, in the order
    /// of their runs, and keeps none of them.
    pub fn report(&mut self) -> (r: Vec<RunResult>)
        requires
            inv(old(self)@),
        ensures
            inv(final(self)@),
            result_views(r@) == old(self)@.results,
            final(self)@ == cleared(old(self)@),
    {
        let mut out: Vec<RunResult> = Vec::new();
        std::mem::swap(&mut self.results, &mut out);
        self.reported = self.reported + out.len();
        out
    }

    /// The run at position `run` of all that were planned.
    pub fn plan(&self, run: usize) -> (r: Option<&RunPlan>)
        ensures
            match r {
                Some(plan) => run < self@.plans.len() && *plan == self@.plans[run as int],
                None => run >= self@.plans.len(),
            },
    {
        if run < self.plans.len() {
            Some(&self.plans[run])
        } else {
            None
        }
    }

    /// The segments that the run at hand is scored by, once its artifacts are there.
    pub fn segments(&self) -> (r: &Vec<Segment>)
        ensures
            r@ == self@.segments,
    {
        &self.segments
    }

    /// Where the runner stands within the run at hand.
    pub fn phase(&self) -> (r: Phase)
        ensures
            r == self@.phase,
    {
        self.phase
    }

    /// The number of runs that are planned and not recorded yet.
    pub fn remaining(&self) -> (r: usize)
        requires
            inv(self@),
        ensures
            r == self@.plans.len() - self@.cursor,
    {
        self.plans.len() - self.cursor
    }
}

/// Recording a run keeps the book in order.
pub proof fn lemma_complete_keeps_invariant(v: RunnerView)
    requires
        inv(v),
        v.phase != Phase::Idle,
    ensures
        inv(complete(v)),
        complete(v).results.len() == v.results.len() + 1,
        answers(complete(v).results.last(), v.plans[v.cursor]),
{
}

/// Whatever is reported to the runner, its book stays in order.
pub proof fn lemma_next_keeps_invariant(v: RunnerView, event: Event)
    requires
        inv(v),
    ensures
        inv(next(v, event)),
{
    if accepts(v.phase, event) {
        lemma_complete_keeps_invariant(v);
        if v.phase == Phase::TearingDown {
            if let Event::Failed { error } = event {
                let failure = if v.failure is Some {
                    v.failure
                } else {
                    Some(ErrorInfo { error, during: v.phase })
                };
                lemma_complete_keeps_invariant(RunnerView { failure, ..v });
            }
        }
    }
}

/// Every event that is accepted brings the end nearer: within a run the steps are
/// taken in their order and none is taken twice, so a run takes at most six events,
/// and the runner rests after at most six events for each run that was left. No run
/// is recorded before it was torn down.
pub proof fn lemma_accepted_event_makes_progress(v: RunnerView, event: Event)
    requires
        inv(v),
        accepts(v.phase, event),
    ensures
        0 <= work_left(next(v, event)) < work_left(v),
        next(v, event).cursor == v.cursor ==> rank(next(v, event).phase) > rank(v.phase),
        next(v, event).cursor == v.cursor || next(v, event).cursor == v.cursor + 1,
        next(v, event).cursor == v.cursor + 1 ==> v.phase == Phase::TearingDown,
        next(v, event).plans == v.plans,
{
}

/// A runner at rest has recorded one result for each run that was planned, whether
/// the runs succeeded or failed.
pub proof fn lemma_one_result_per_run(v: RunnerView)
    requires
        inv(v),
        v.phase == Phase::Idle,
    ensures
        v.reported + v.results.len() == v.plans.len(),
        forall|k: int|
            0 <= k < v.results.len() ==> answers(#[trigger] v.results[k], v.plans[v.reported + k]),
{
}

/// A failure ends the run at hand and no other: the runner asks for the run to be
/// torn down, and once it is, the run is recorded as failed, with the failure as its
/// cause, and the runner asks for the start of the next run if there is one.
pub proof fn lemma_failure_is_isolated(v: RunnerView, error: RunError)
    requires
        inv(v),
        v.phase != Phase::Idle,
        v.failure is None,
    ensures
        ({
            let failed = next(v, Event::Failed { error });
            let after = if v.phase == Phase::TearingDown {
                failed
            } else {
                next(failed, Event::TornDown)
            };
            &&& v.phase != Phase::TearingDown ==> action(failed) == Action::TearDown {
                run: v.cursor as usize,
                full_reset: needs_full_reset(error),
            }
            &&& inv(after)
            &&& after.plans == v.plans
            &&& after.cursor == v.cursor + 1
            &&& after.results == v.results.push(after.results.last())
            &&& answers(after.results.last(), v.plans[v.cursor])
            &&& !after.results.last().succeeded
            &&& after.results.last().error == Some(ErrorInfo { error, during: v.phase })
            &&& after.results.last().metrics.len() == 0
            &&& v.cursor + 1 < v.plans.len() ==> action(after) == Action::StartInfrastructure {
                run: (v.cursor + 1) as usize,
            }
            &&& v.cursor + 1 == v.plans.len() ==> action(after) == Action::Finished
        }),
{
    let failure = Some(ErrorInfo { error, during: v.phase });
    let failed = next(v, Event::Failed { error });
    if v.phase == Phase::TearingDown {
        lemma_complete_keeps_invariant(RunnerView { failure, ..v });
    } else {
        lemma_complete_keeps_invariant(failed);
    }
}

/// When the runs of a group have been taken from first to last, there is exactly one
/// result for each pair of a case and a profile, in the order of the expansion, and no
/// two results share the pair of case name and profile label. This holds whichever of
/// the runs failed.
pub proof fn lemma_results_of_a_group(
    v: RunnerView,
    group: Seq<char>,
    cases: Seq<TestCaseConfig>,
    profiles: Seq<NetworkProfile>,
)
    requires
        inv(v),
        v.phase == Phase::Idle,
        v.reported == 0,
        rejection(cases, profiles) is None,
        is_expansion(v.plans, group, cases, profiles),
    ensures
        v.results.len() == cases.len() * profiles.len(),
        forall|k: int|
            0 <= k < v.results.len() ==> {
                &&& (#[trigger] v.results[k]).group == group
                &&& v.results[k].test_case_name == cases[k / (profiles.len() as int)].name@
                &&& v.results[k].profile_label == profiles[k
                    % (profiles.len() as int)].spec_label()
            },
        forall|a: int, b: int|
            0 <= a < b < v.results.len() ==> (#[trigger] v.results[a]).test_case_name
                != (#[trigger] v.results[b]).test_case_name || v.results[a].profile_label
                != v.results[b].profile_label,
{
    lemma_expansion_identities(v.plans, group, cases, profiles);
}

/// The runner after each of `events` in turn.
pub open spec fn after_all(v: RunnerView, events: Seq<Event>) -> RunnerView
    decreases events.len(),
{
    if events.len() == 0 {
        v
    } else {
        next(after_all(v, events.drop_last()), events.last())
    }
}

/// The events of a run in which nothing fails.
pub open spec fn undisturbed(paths: Vec<String>, reference_ms: u64, scores: Vec<u32>) -> Seq<Event> {
    seq![
        Event::InfrastructureStarted,
        Event::SchedulerStarted,
        Event::CallCompleted,
        Event::ArtifactsRetrieved { paths, reference_ms },
        Event::Scored { scores },
        Event::TornDown,
    ]
}

/// A run in which every step comes about, and which is given one score for each of
/// its segments, is recorded as succeeded, with the metrics and the series that the
/// scores amount to and with the artifacts that were retrieved. If the call is scored
/// in full, its mean opinion score is the one score that was given.
pub proof fn lemma_undisturbed_run_succeeds(
    v: RunnerView,
    paths: Vec<String>,
    reference_ms: u64,
    scores: Vec<u32>,
)
    requires
        inv(v),
        v.phase == Phase::Starting,
        scores@.len() == scoring_segments(
            v.plans[v.cursor].analysis_mode,
            v.plans[v.cursor].timeline@,
            v.plans[v.cursor].duration_ms as int,
            reference_ms as int,
        ).len(),
    ensures
        ({
            let plan = v.plans[v.cursor];
            let segments = scoring_segments(
                plan.analysis_mode,
                plan.timeline@,
                plan.duration_ms as int,
                reference_ms as int,
            );
            let after = after_all(v, undisturbed(paths, reference_ms, scores));
            let result = after.results.last();
            &&& inv(after)
            &&& after.cursor == v.cursor + 1
            &&& after.results == v.results.push(result)
            &&& answers(result, plan)
            &&& result.succeeded
            &&& result.artifact_paths == views(paths@)
            &&& spec_assemble(plan.analysis_mode, segments, scores@) == Some(
                (result.metrics, result.series),
            )
            &&& plan.analysis_mode == crate::config::AudioAnalysisMode::Full
                ==> crate::score::metric_value(result.metrics, crate::config::MetricKind::Mos)
                == Some(scores@[0])
        }),
{
    let events = undisturbed(paths, reference_ms, scores);
    let plan = v.plans[v.cursor];
    let segments = scoring_segments(
        plan.analysis_mode,
        plan.timeline@,
        plan.duration_ms as int,
        reference_ms as int,
    );
    crate::score::lemma_scores_per_mode(plan.analysis_mode, segments, scores@);
    let e1 = events.take(1);
    let e2 = events.take(2);
    let e3 = events.take(3);
    let e4 = events.take(4);
    let e5 = events.take(5);
    assert(e1.drop_last() =~= events.take(0));
    assert(e2.drop_last() =~= e1);
    assert(e3.drop_last() =~= e2);
    assert(e4.drop_last() =~= e3);
    assert(e5.drop_last() =~= e4);
    let s0 = after_all(v, events.take(0));
    let s1 = after_all(v, e1);
    let s2 = after_all(v, e2);
    let s3 = after_all(v, e3);
    let s4 = after_all(v, e4);
    let s5 = after_all(v, e5);
    lemma_complete_keeps_invariant(s5);
}

} // verus!
