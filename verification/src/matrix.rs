//! Expansion of test cases and network profiles into the runs of a group.

use vstd::prelude::*;
use vstd::arithmetic::div_mod::{lemma_fundamental_div_mod, lemma_fundamental_div_mod_converse};
use crate::config::{AudioAnalysisMode, GroupConfig, TestCaseConfig};
use crate::error::ConfigurationError;
use crate::network::{clamp, clamp_to, NetworkConfigWithOffset, NetworkProfile};
use crate::text::{distinct, has_duplicate, views};

verus! {

/// One cell of the matrix: a test case to be run under a network profile.
#[derive(Clone, Debug, PartialEq, Eq)]
pub struct RunPlan {
    /// Name of the group that the run belongs to.
    pub group: String,
    /// Position of the test case among the cases of the group.
    pub case_index: usize,
    /// Position of the profile among the profiles of the group.
    pub profile_index: usize,
    pub test_case_name: String,
    pub profile_label: String,
    pub duration_ms: u64,
    /// How the call is scored, as the sending participant asks.
    pub analysis_mode: AudioAnalysisMode,
    /// The impairment changes that fall into the call.
    pub timeline: Vec<NetworkConfigWithOffset>,
}

/// The names of the test cases, in order.
pub open spec fn case_names(cases: Seq<TestCaseConfig>) -> Seq<Seq<char>> {
    Seq::new(cases.len(), |i: int| cases[i].name@)
}

/// The labels of the profiles, in order.
pub open spec fn profile_labels(profiles: Seq<NetworkProfile>) -> Seq<Seq<char>> {
    Seq::new(profiles.len(), |j: int| profiles[j].spec_label())
}

/// The error of the first profile at or after `from` that does not resolve.
pub open spec fn first_unresolvable(profiles: Seq<NetworkProfile>, from: int) -> Option<
    ConfigurationError,
>
    decreases profiles.len() - from,
{
    if from < 0 || from >= profiles.len() {
        None
    } else {
        match profiles[from].spec_resolve() {
            Err(e) => Some(e),
            Ok(_) => first_unresolvable(profiles, from + 1),
        }
    }
}

/// Why the matrix cannot be run, if it cannot: two cases share a name, a profile does
/// not resolve, or two profiles share a label, looked for in this order.
pub open spec fn rejection(cases: Seq<TestCaseConfig>, profiles: Seq<NetworkProfile>) -> Option<
    ConfigurationError,
> {
    if !distinct(case_names(cases)) {
        Some(ConfigurationError::DuplicateTestCaseName)
    } else if first_unresolvable(profiles, 0) is Some {
        first_unresolvable(profiles, 0)
    } else if !distinct(profile_labels(profiles)) {
        Some(ConfigurationError::DuplicateProfileLabel)
    } else {
        None
    }
}

/// Whether `plan` is the run, in `group`, of the `i`-th case, `case`, under the `j`-th
/// profile, `profile`.
pub open spec fn plans_for(
    plan: RunPlan,
    group: Seq<char>,
    i: int,
    j: int,
    case: TestCaseConfig,
    profile: NetworkProfile,
) -> bool {
    &&& plan.group@ == group
    &&& plan.case_index == i
    &&& plan.profile_index == j
    &&& plan.test_case_name@ == case.name@
    &&& plan.profile_label@ == profile.spec_label()
    &&& plan.duration_ms == case.spec_duration_ms()
    &&& plan.analysis_mode == case.client_a.audio.analysis_mode
    &&& profile.spec_resolve() matches Ok(full) && plan.timeline@ == clamp(
        full,
        case.spec_duration_ms(),
    )
}

/// Whether `plans` is the product of `cases` and `profiles` in `group`: every case
/// under every profile, the cases in order and, for each case, the profiles in order.
pub open spec fn is_expansion(
    plans: Seq<RunPlan>,
    group: Seq<char>,
    cases: Seq<TestCaseConfig>,
    profiles: Seq<NetworkProfile>,
) -> bool {
    &&& plans.len() == cases.len() * profiles.len()
    &&& forall|k: int|
        0 <= k < plans.len() ==> plans_for(
            #[trigger] plans[k],
            group,
            k / (profiles.len() as int),
            k % (profiles.len() as int),
            cases[k / (profiles.len() as int)],
            profiles[k % (profiles.len() as int)],
        )
}

/// What identifies a run within its group.
pub open spec fn identity(plan: RunPlan) -> (Seq<char>, Seq<char>) {
    (plan.test_case_name@, plan.profile_label@)
}

proof fn lemma_first_unresolvable(profiles: Seq<NetworkProfile>, from: int, j: int)
    requires
        0 <= from <= j <= profiles.len(),
        forall|k: int| from <= k < j ==> (#[trigger] profiles[k]).spec_resolve() is Ok,
    ensures
        first_unresolvable(profiles, from) == first_unresolvable(profiles, j),
    decreases j - from,
{
    if from < j {
        lemma_first_unresolvable(profiles, from + 1, j);
    }
}

/// Expands `cases` and `profiles` into the runs of a group, or says why they cannot
/// be run. Nothing is planned unless everything can be.
pub fn expand(
    group: &GroupConfig,
    cases: &Vec<TestCaseConfig>,
    profiles: &Vec<NetworkProfile>,
) -> (r: Result<Vec<RunPlan>, ConfigurationError>)
    ensures
        match r {
            Ok(plans) => rejection(cases@, profiles@) is None && is_expansion(
                plans@,
                group.name@,
                cases@,
                profiles@,
            ),
            Err(e) => rejection(cases@, profiles@) == Some(e),
        },
{
    let m: usize = cases.len();
    let n: usize = profiles.len();
    let mut names: Vec<String> = Vec::new();
    let mut i: usize = 0;
    while i < m
        invariant
            i <= m == cases.len(),
            names.len() == i,
            forall|a: int| 0 <= a < i ==> names[a]@ == cases[a].name@,
        decreases m - i,
    {
        names.push(cases[i].name.clone());
        i = i + 1;
    }
    assert(views(names@) =~= case_names(cases@));
    if has_duplicate(&names) {
        return Err(ConfigurationError::DuplicateTestCaseName);
    }
    let mut labels: Vec<String> = Vec::new();
    let mut timelines: Vec<Vec<NetworkConfigWithOffset>> = Vec::new();
    let mut j: usize = 0;
    while j < n
        invariant
            j <= n == profiles.len(),
            labels.len() == j,
            timelines.len() == j,
            forall|b: int| 0 <= b < j ==> labels[b]@ == profiles[b].spec_label(),
            forall|b: int|
                0 <= b < j ==> (#[trigger] profiles[b]).spec_resolve() == Ok::<
                    Seq<NetworkConfigWithOffset>,
                    ConfigurationError,
                >(timelines[b]@),
            distinct(case_names(cases@)),
        decreases n - j,
    {
        match profiles[j].resolve() {
            Err(e) => {
                proof {
                    lemma_first_unresolvable(profiles@, 0, j as int);
                }
                return Err(e);
            },
            Ok(t) => {
                timelines.push(t);
            },
        }
        labels.push(profiles[j].label());
        j = j + 1;
    }
    proof {
        lemma_first_unresolvable(profiles@, 0, n as int);
    }
    assert(views(labels@) =~= profile_labels(profiles@));
    if has_duplicate(&labels) {
        return Err(ConfigurationError::DuplicateProfileLabel);
    }
    let mut plans: Vec<RunPlan> = Vec::new();
    let mut i: usize = 0;
    while i < m
        invariant
            i <= m == cases.len(),
            n == profiles.len() == labels.len() == timelines.len(),
            plans.len() == i * n,
            forall|b: int| 0 <= b < n ==> labels[b]@ == profiles[b].spec_label(),
            forall|b: int|
                0 <= b < n ==> (#[trigger] profiles[b]).spec_resolve() == Ok::<
                    Seq<NetworkConfigWithOffset>,
                    ConfigurationError,
                >(timelines[b]@),
            forall|k: int|
                0 <= k < plans.len() ==> plans_for(
                    #[trigger] plans[k],
                    group.name@,
                    k / (n as int),
                    k % (n as int),
                    cases[k / (n as int)],
                    profiles[k % (n as int)],
                ),
        decreases m - i,
    {
        let duration_ms: u64 = cases[i].duration_ms();
        let mut j: usize = 0;
        while j < n
            invariant
                i < m == cases.len(),
                j <= n,
                n == profiles.len() == labels.len() == timelines.len(),
                duration_ms == cases[i as int].spec_duration_ms(),
                plans.len() == i * n + j,
                forall|b: int| 0 <= b < n ==> labels[b]@ == profiles[b].spec_label(),
                forall|b: int|
                    0 <= b < n ==> (#[trigger] profiles[b]).spec_resolve() == Ok::<
                        Seq<NetworkConfigWithOffset>,
                        ConfigurationError,
                    >(timelines[b]@),
                forall|k: int|
                    0 <= k < plans.len() ==> plans_for(
                        #[trigger] plans[k],
                        group.name@,
                        k / (n as int),
                        k % (n as int),
                        cases[k / (n as int)],
                        profiles[k % (n as int)],
                    ),
            decreases n - j,
        {
            let plan = RunPlan {
                group: group.name.clone(),
                case_index: i,
                profile_index: j,
                test_case_name: cases[i].name.clone(),
                profile_label: labels[j].clone(),
                duration_ms,
                analysis_mode: cases[i].client_a.audio.analysis_mode,
                timeline: clamp_to(&timelines[j], duration_ms),
            };
            proof {
                let k = plans.len() as int;
                lemma_fundamental_div_mod_converse(k, n as int, i as int, j as int);
                assert(plans_for(
                    plan,
                    group.name@,
                    i as int,
                    j as int,
                    cases[i as int],
                    profiles[j as int],
                ));
            }
            plans.push(plan);
            j = j + 1;
        }
        assert(i * n + n == (i + 1) * n) by (nonlinear_arith);
        i = i + 1;
    }
    Ok(plans)
}

/// Expanding `m` cases and `n` profiles that are not rejected yields exactly `m * n`
/// runs, no two of which share the pair of case name and profile label.
pub proof fn lemma_expansion_identities(
    plans: Seq<RunPlan>,
    group: Seq<char>,
    cases: Seq<TestCaseConfig>,
    profiles: Seq<NetworkProfile>,
)
    requires
        rejection(cases, profiles) is None,
        is_expansion(plans, group, cases, profiles),
    ensures
        plans.len() == cases.len() * profiles.len(),
        forall|a: int, b: int|
            0 <= a < b < plans.len() ==> identity(#[trigger] plans[a]) != identity(
                #[trigger] plans[b],
            ),
{
    let n = profiles.len() as int;
    assert forall|a: int, b: int| 0 <= a < b < plans.len() implies identity(#[trigger] plans[a])
        != identity(#[trigger] plans[b]) by {
        assert(n > 0) by {
            if n == 0 {
                assert(cases.len() * 0 == 0);
            }
        }
        lemma_fundamental_div_mod(a, n);
        lemma_fundamental_div_mod(b, n);
        lemma_cell_in_range(a, cases.len() as int, n);
        lemma_cell_in_range(b, cases.len() as int, n);
        if a / n != b / n {
            assert(case_names(cases)[a / n] != case_names(cases)[b / n]);
        } else {
            assert(profile_labels(profiles)[a % n] != profile_labels(profiles)[b % n]);
        }
    }
}

/// The `k`-th cell of a matrix of `m` rows and `n` columns lies in row `k / n` and
/// column `k % n`, and both exist.
pub proof fn lemma_cell_in_range(k: int, m: int, n: int)
    requires
        0 <= k < m * n,
        0 < n,
    ensures
        0 <= k / n < m,
        0 <= k % n < n,
{
    lemma_fundamental_div_mod(k, n);
    let q = k / n;
    assert(q >= 0) by (nonlinear_arith)
        requires
            k == n * q + k % n,
            0 <= k,
            0 <= k % n < n,
            0 < n,
    ;
    assert(q < m) by (nonlinear_arith)
        requires
            k == n * q + k % n,
            k < m * n,
            0 <= k % n,
            0 < n,
    ;
}

} // verus!
