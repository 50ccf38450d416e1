//! The test sets that come with the harness.
//!
//! A test set names the reference sounds to preprocess and the groups to run, each
//! group with its test cases and network profiles. The sets here serve as examples
//! and as a standard battery.

use vstd::prelude::*;
use crate::config::{
    default_audio, default_call, AudioAnalysisMode, AudioConfig, AudioConfigView,
    CallConfig, CallConfigView, GroupConfig, GroupConfigView, MetricKind, TestCaseConfig,
    TestCaseConfigView, VideoConfig, VideoConfigView,
};
use crate::network::{
    initially, unimpaired, NetworkConfig, NetworkConfigWithOffset, NetworkProfile,
    NetworkProfileView,
};
use crate::error::ConfigurationError;
use crate::matrix::{expand, rejection};
use crate::text::{decimal, decimal_string, distinct, has_duplicate, views};

verus! {

/// A group with the cases and profiles that it is run with.
#[derive(Clone, Debug, PartialEq, Eq)]
pub struct GroupRun {
    pub group: GroupConfig,
    pub cases: Vec<TestCaseConfig>,
    pub profiles: Vec<NetworkProfile>,
}

/// A named set of groups, with the reference sounds to preprocess before they run.
#[derive(Clone, Debug, PartialEq, Eq)]
pub struct TestSet {
    pub name: String,
    pub sounds: Vec<String>,
    pub groups: Vec<GroupRun>,
}

/// The value of a `GroupRun`.
#[verifier::ext_equal]
pub struct GroupRunView {
    pub group: GroupConfigView,
    pub cases: Seq<TestCaseConfigView>,
    pub profiles: Seq<NetworkProfileView>,
}

/// The value of a `TestSet`.
#[verifier::ext_equal]
pub struct TestSetView {
    pub name: Seq<char>,
    pub sounds: Seq<Seq<char>>,
    pub groups: Seq<GroupRunView>,
}

/// The values of a list of test cases, in order.
pub open spec fn case_views(cases: Seq<TestCaseConfig>) -> Seq<TestCaseConfigView> {
    Seq::new(cases.len(), |i: int| cases[i]@)
}

/// The values of a list of profiles, in order.
pub open spec fn profile_views(profiles: Seq<NetworkProfile>) -> Seq<NetworkProfileView> {
    Seq::new(profiles.len(), |i: int| profiles[i]@)
}

impl View for GroupRun {
    type V = GroupRunView;

    open spec fn view(&self) -> GroupRunView {
        GroupRunView {
            group: self.group@,
            cases: case_views(self.cases@),
            profiles: profile_views(self.profiles@),
        }
    }
}

impl View for TestSet {
    type V = TestSetView;

    open spec fn view(&self) -> TestSetView {
        TestSetView {
            name: self.name@,
            sounds: views(self.sounds@),
            groups: Seq::new(self.groups@.len(), |i: int| self.groups@[i]@),
        }
    }
}

/// Why the first group at or after `from` that cannot be run cannot be.
pub open spec fn first_rejection(groups: Seq<GroupRun>, from: int) -> Option<ConfigurationError>
    decreases groups.len() - from,
{
    if from < 0 || from >= groups.len() {
        None
    } else {
        match rejection(groups[from].cases@, groups[from].profiles@) {
            Some(e) => Some(e),
            None => first_rejection(groups, from + 1),
        }
    }
}

/// The names of the groups, in order.
pub open spec fn group_names(groups: Seq<GroupRun>) -> Seq<Seq<char>> {
    Seq::new(groups.len(), |i: int| groups[i].group.name@)
}

/// Why a set of `groups` cannot be run, if it cannot: two groups share a name, or a
/// group cannot be run, looked for in this order.
pub open spec fn set_rejection(groups: Seq<GroupRun>) -> Option<ConfigurationError> {
    if !distinct(group_names(groups)) {
        Some(ConfigurationError::DuplicateGroupName)
    } else {
        first_rejection(groups, 0)
    }
}

impl TestSet {
    /// Checks that the set can be run, so that a set that cannot be run as a whole is
    /// turned down before any of its runs starts.
    pub fn validate(&self) -> (r: Result<(), ConfigurationError>)
        ensures
            match r {
                Ok(_) => set_rejection(self.groups@) is None,
                Err(e) => set_rejection(self.groups@) == Some(e),
            },
    {
        let mut names: Vec<String> = Vec::new();
        let mut i: usize = 0;
        while i < self.groups.len()
            invariant
                i <= self.groups.len(),
                names.len() == i,
                forall|a: int| 0 <= a < i ==> names[a]@ == self.groups[a].group.name@,
            decreases self.groups.len() - i,
        {
            names.push(self.groups[i].group.name.clone());
            i = i + 1;
        }
        assert(views(names@) =~= group_names(self.groups@));
        if has_duplicate(&names) {
            return Err(ConfigurationError::DuplicateGroupName);
        }
        let mut i: usize = 0;
        while i < self.groups.len()
            invariant
                i <= self.groups.len(),
                distinct(group_names(self.groups@)),
                first_rejection(self.groups@, 0) == first_rejection(self.groups@, i as int),
            decreases self.groups.len() - i,
        {
            let run = &self.groups[i];
            match expand(&run.group, &run.cases, &run.profiles) {
                Err(e) => {
                    return Err(e);
                },
                Ok(_) => {},
            }
            i = i + 1;
        }
        Ok(())
    }
}

/// The sound that the audio cases send.
pub open spec fn phrasing() -> Seq<char> {
    "normal_phrasing"@
}

/// The video that the video cases send.
pub open spec fn conference() -> Seq<char> {
    "ConferenceMotion_50fps@1280x720"@
}

/// The relay over UDP.
pub open spec fn turn_udp() -> Seq<char> {
    "turn:turn"@
}

/// The relay over TCP.
pub open spec fn turn_tcp() -> Seq<char> {
    "turn:turn:80?transport=tcp"@
}

/// A group that is charted over the mean opinion score, its points in the order in
/// which the profiles are run.
pub open spec fn mos_group(name: Seq<char>) -> GroupConfigView {
    GroupConfigView {
        name,
        chart_dimensions: seq![MetricKind::Mos],
        x_axis_labels: Seq::empty(),
    }
}

/// A participant that sends the sound `input` in packets of `packet_size_ms`.
pub open spec fn speaker(input: Seq<char>, packet_size_ms: u32, enable_dtx: bool) -> CallConfigView {
    CallConfigView {
        audio: AudioConfigView {
            input_name: Some(input),
            packet_size_ms,
            enable_dtx,
            ..default_audio()
        },
        ..default_call()
    }
}

/// A participant that sends the usual sound through `relay_servers`.
pub open spec fn relayed(relay_servers: Seq<Seq<char>>, force_relay: bool) -> CallConfigView {
    CallConfigView { relay_servers, force_relay, ..speaker(phrasing(), 20, true) }
}

/// A participant that sends the usual sound and the usual video.
pub open spec fn presenter(enable_vp9: bool) -> CallConfigView {
    CallConfigView {
        video: VideoConfigView { input_name: Some(conference()), enable_vp9 },
        ..speaker(phrasing(), 20, true)
    }
}

/// A participant that sends twelve seconds of speech over and over, scored segment by
/// segment and not drawn.
pub open spec fn looping_speaker(packet_size_ms: u32) -> CallConfigView {
    CallConfigView {
        audio: AudioConfigView {
            input_name: Some("normal_12s"@),
            packet_size_ms,
            enable_dtx: true,
            analysis_mode: AudioAnalysisMode::Chopped,
            generate_spectrogram: false,
        },
        ..default_call()
    }
}

/// A call of `duration` seconds between `client_a` and `client_b`.
pub open spec fn case(
    name: Seq<char>,
    duration: u32,
    client_a: CallConfigView,
    client_b: CallConfigView,
) -> TestCaseConfigView {
    TestCaseConfigView { name, duration, client_a, client_b }
}

/// A call of 30 seconds in which both participants behave as `client`.
pub open spec fn mirrored(name: Seq<char>, client: CallConfigView) -> TestCaseConfigView {
    case(name, 30, client, client)
}

/// The name of the case that sends packets of `packet_size_ms`.
pub open spec fn ptime_name(packet_size_ms: u32) -> Seq<char> {
    "ptime_"@ + decimal(packet_size_ms as nat)
}

/// A call of 30 seconds in which both participants send packets of `packet_size_ms`.
pub open spec fn ptime_case(packet_size_ms: u32) -> TestCaseConfigView {
    mirrored(ptime_name(packet_size_ms), speaker(phrasing(), packet_size_ms, true))
}

/// A call of four minutes in which both participants loop twelve seconds of speech in
/// packets of `packet_size_ms`.
pub open spec fn long_ptime_case(packet_size_ms: u32) -> TestCaseConfigView {
    case(
        ptime_name(packet_size_ms),
        240,
        looping_speaker(packet_size_ms),
        looping_speaker(packet_size_ms),
    )
}

/// One minute without limit, one at 50 kbps, one at 25 kbps, and without limit again.
pub open spec fn limit_default() -> NetworkProfileView {
    NetworkProfileView::Custom(
        "limit_default"@,
        seq![
            initially(unimpaired()),
            NetworkConfigWithOffset {
                offset_ms: 60_000,
                network_config: NetworkConfig { rate_kbps: Some(50u32), ..unimpaired() },
            },
            NetworkConfigWithOffset {
                offset_ms: 120_000,
                network_config: NetworkConfig { rate_kbps: Some(25u32), ..unimpaired() },
            },
            NetworkConfigWithOffset { offset_ms: 180_000, network_config: unimpaired() },
        ],
    )
}

/// A simple call without impairment: the place to start from.
pub open spec fn example_set() -> TestSetView {
    TestSetView {
        name: "example"@,
        sounds: seq![phrasing()],
        groups: seq![
            GroupRunView {
                group: mos_group("example"@),
                cases: seq![case("default"@, 30, speaker(phrasing(), 20, true), default_call())],
                profiles: seq![NetworkProfileView::NoEmulation],
            },
        ],
    }
}

/// One call under each of the usual network profiles.
pub open spec fn baseline_over_all_profiles_set() -> TestSetView {
    TestSetView {
        name: "baseline_over_all_profiles"@,
        sounds: Seq::empty(),
        groups: seq![
            GroupRunView {
                group: mos_group("baseline_over_all_profiles"@),
                cases: seq![mirrored("default"@, speaker(phrasing(), 20, true))],
                profiles: seq![
                    NetworkProfileView::Default,
                    NetworkProfileView::Moderate,
                    NetworkProfileView::International,
                    NetworkProfileView::SpikyLoss,
                    NetworkProfileView::LimitedBandwidth(250),
                    NetworkProfileView::LimitedBandwidth(100),
                    NetworkProfileView::LimitedBandwidth(50),
                    NetworkProfileView::SimpleLoss(10),
                    NetworkProfileView::SimpleLoss(30),
                ],
            },
        ],
    }
}

/// Calls with and without DTX over a range of losses.
pub open spec fn dtx_tests_with_loss_set() -> TestSetView {
    TestSetView {
        name: "dtx_tests_with_loss"@,
        sounds: Seq::empty(),
        groups: seq![
            GroupRunView {
                group: mos_group("dtx_tests_with_loss"@),
                cases: seq![
                    mirrored("with_dtx"@, speaker(phrasing(), 20, true)),
                    mirrored("no_dtx"@, speaker(phrasing(), 20, false)),
                ],
                profiles: seq![
                    NetworkProfileView::NoEmulation,
                    NetworkProfileView::SimpleLoss(5),
                    NetworkProfileView::SimpleLoss(10),
                    NetworkProfileView::SimpleLoss(20),
                    NetworkProfileView::SimpleLoss(30),
                    NetworkProfileView::SimpleLoss(40),
                ],
            },
        ],
    }
}

/// Calls without a relay, with one on offer, and forced through one over UDP and
/// over TCP.
pub open spec fn example_with_relay_set() -> TestSetView {
    TestSetView {
        name: "example_with_relay"@,
        sounds: Seq::empty(),
        groups: seq![
            GroupRunView {
                group: mos_group("example_with_relay"@),
                cases: seq![
                    mirrored("no_relay"@, speaker(phrasing(), 20, true)),
                    case(
                        "with_relay"@,
                        30,
                        relayed(seq![turn_udp(), turn_tcp()], false),
                        relayed(seq!["stun:turn"@, turn_udp(), turn_tcp()], false),
                    ),
                    mirrored("force_udp_relay"@, relayed(seq![turn_udp()], true)),
                    mirrored("force_tcp_relay"@, relayed(seq![turn_tcp()], true)),
                ],
                profiles: seq![NetworkProfileView::NoEmulation],
            },
        ],
    }
}

/// Four packet sizes, over a range of losses and over a range of bandwidths, each
/// range in a group of its own.
pub open spec fn ptime_analysis_set() -> TestSetView {
    let cases = seq![ptime_case(20), ptime_case(40), ptime_case(60), ptime_case(120)];
    TestSetView {
        name: "ptime_analysis"@,
        sounds: seq!["speaker_a"@, "speaker_b"@],
        groups: seq![
            GroupRunView {
                group: mos_group("ptime_over_loss"@),
                cases,
                profiles: seq![
                    NetworkProfileView::NoEmulation,
                    NetworkProfileView::SimpleLoss(10),
                    NetworkProfileView::SimpleLoss(20),
                    NetworkProfileView::SimpleLoss(30),
                    NetworkProfileView::SimpleLoss(40),
                    NetworkProfileView::SimpleLoss(50),
                ],
            },
            GroupRunView {
                group: mos_group("ptime_over_bandwidth"@),
                cases,
                profiles: seq![
                    NetworkProfileView::NoEmulation,
                    NetworkProfileView::LimitedBandwidth(250),
                    NetworkProfileView::LimitedBandwidth(125),
                    NetworkProfileView::LimitedBandwidth(100),
                    NetworkProfileView::LimitedBandwidth(75),
                    NetworkProfileView::LimitedBandwidth(50),
                    NetworkProfileView::LimitedBandwidth(25),
                ],
            },
        ],
    }
}

/// A call that sends video one way, over a range of bandwidths.
pub open spec fn video_send_over_bandwidth_set() -> TestSetView {
    TestSetView {
        name: "video_send_over_bandwidth"@,
        sounds: seq![phrasing()],
        groups: seq![
            GroupRunView {
                group: mos_group("video_send_over_bandwidth"@),
                cases: seq![case("video"@, 30, presenter(false), speaker(phrasing(), 20, true))],
                profiles: seq![
                    NetworkProfileView::NoEmulation,
                    NetworkProfileView::LimitedBandwidth(2000),
                    NetworkProfileView::LimitedBandwidth(1500),
                    NetworkProfileView::LimitedBandwidth(1250),
                    NetworkProfileView::LimitedBandwidth(1000),
                    NetworkProfileView::LimitedBandwidth(750),
                    NetworkProfileView::LimitedBandwidth(500),
                    NetworkProfileView::LimitedBandwidth(250),
                    NetworkProfileView::LimitedBandwidth(125),
                    NetworkProfileView::LimitedBandwidth(100),
                    NetworkProfileView::LimitedBandwidth(75),
                    NetworkProfileView::LimitedBandwidth(50),
                ],
            },
        ],
    }
}

/// Calls that send video both ways, once with VP8 and once with VP9.
pub open spec fn video_compare_vp8_vs_vp9_set() -> TestSetView {
    TestSetView {
        name: "video_compare_vp8_vs_vp9"@,
        sounds: seq![phrasing()],
        groups: seq![
            GroupRunView {
                group: mos_group("video_compare_vp8_vs_vp9"@),
                cases: seq![mirrored("vp8"@, presenter(false)), mirrored("vp9"@, presenter(true))],
                profiles: seq![NetworkProfileView::Default],
            },
        ],
    }
}

/// Three packet sizes over four minutes in which the bandwidth changes every minute.
pub open spec fn changing_bandwidth_audio_test_set() -> TestSetView {
    TestSetView {
        name: "changing_bandwidth_audio_test"@,
        sounds: Seq::empty(),
        groups: seq![
            GroupRunView {
                group: mos_group("changing_bandwidth_audio_test"@),
                cases: seq![long_ptime_case(20), long_ptime_case(60), long_ptime_case(120)],
                profiles: seq![limit_default()],
            },
        ],
    }
}

fn mos_group_named(name: &str) -> (r: GroupConfig)
    ensures
        r@ == mos_group(name@),
{
    let mut chart_dimensions: Vec<MetricKind> = Vec::new();
    chart_dimensions.push(MetricKind::Mos);
    GroupConfig {
        name: String::from_str(name),
        chart_dimensions,
        x_axis_labels: Vec::new(),
    }
}

fn speaker_sending(input: &str, packet_size_ms: u32, enable_dtx: bool) -> (r: CallConfig)
    ensures
        r@ == speaker(input@, packet_size_ms, enable_dtx),
{
    CallConfig {
        audio: AudioConfig {
            input_name: Some(String::from_str(input)),
            packet_size_ms,
            enable_dtx,
            ..AudioConfig::default()
        },
        ..CallConfig::default()
    }
}

fn usual_speaker() -> (r: CallConfig)
    ensures
        r@ == speaker(phrasing(), 20, true),
{
    CallConfig::default().with_audio_input_name("normal_phrasing")
}

fn relayed_through(relay_servers: Vec<String>, force_relay: bool) -> (r: CallConfig)
    ensures
        r@ == relayed(views(relay_servers@), force_relay),
{
    CallConfig { relay_servers, force_relay, ..usual_speaker() }
}

fn presenter_with(enable_vp9: bool) -> (r: CallConfig)
    ensures
        r@ == presenter(enable_vp9),
{
    CallConfig {
        video: VideoConfig {
            input_name: Some(String::from_str("ConferenceMotion_50fps@1280x720")),
            enable_vp9,
        },
        ..usual_speaker()
    }
}

fn looping_speaker_with(packet_size_ms: u32) -> (r: CallConfig)
    ensures
        r@ == looping_speaker(packet_size_ms),
{
    CallConfig {
        audio: AudioConfig {
            input_name: Some(String::from_str("normal_12s")),
            packet_size_ms,
            analysis_mode: AudioAnalysisMode::Chopped,
            generate_spectrogram: false,
            ..AudioConfig::default()
        },
        ..CallConfig::default()
    }
}

fn case_named(name: &str, client_a: CallConfig, client_b: CallConfig) -> (r: TestCaseConfig)
    ensures
        r@ == case(name@, 30, client_a@, client_b@),
{
    TestCaseConfig { name: String::from_str(name), client_a, client_b, ..TestCaseConfig::default() }
}

fn ptime_name_for(packet_size_ms: u32) -> (r: String)
    ensures
        r@ == ptime_name(packet_size_ms),
{
    let mut name = String::from_str("ptime_");
    let digits = decimal_string(packet_size_ms as u64);
    name.append(digits.as_str());
    name
}

fn ptime_case_for(packet_size_ms: u32) -> (r: TestCaseConfig)
    ensures
        r@ == ptime_case(packet_size_ms),
{
    TestCaseConfig {
        name: ptime_name_for(packet_size_ms),
        client_a: speaker_sending("normal_phrasing", packet_size_ms, true),
        client_b: speaker_sending("normal_phrasing", packet_size_ms, true),
        ..TestCaseConfig::default()
    }
}

fn long_ptime_case_for(packet_size_ms: u32) -> (r: TestCaseConfig)
    ensures
        r@ == long_ptime_case(packet_size_ms),
{
    TestCaseConfig {
        name: ptime_name_for(packet_size_ms),
        duration: 240,
        client_a: looping_speaker_with(packet_size_ms),
        client_b: looping_speaker_with(packet_size_ms),
    }
}

fn ptime_cases() -> (r: Vec<TestCaseConfig>)
    ensures
        case_views(r@) == seq![ptime_case(20), ptime_case(40), ptime_case(60), ptime_case(120)],
{
    let mut cases: Vec<TestCaseConfig> = Vec::new();
    cases.push(ptime_case_for(20));
    cases.push(ptime_case_for(40));
    cases.push(ptime_case_for(60));
    cases.push(ptime_case_for(120));
    assert(case_views(cases@) =~= seq![
        ptime_case(20),
        ptime_case(40),
        ptime_case(60),
        ptime_case(120),
    ]);
    cases
}

fn one_case(case: TestCaseConfig) -> (r: Vec<TestCaseConfig>)
    ensures
        case_views(r@) == seq![case@],
{
    let mut cases: Vec<TestCaseConfig> = Vec::new();
    cases.push(case);
    cases
}

fn losses(with_baseline: bool, percents: &Vec<u8>) -> (r: Vec<NetworkProfile>)
    ensures
        profile_views(r@) == (if with_baseline {
            seq![NetworkProfileView::NoEmulation]
        } else {
            Seq::empty()
        }) + Seq::new(percents@.len(), |i: int| NetworkProfileView::SimpleLoss(percents@[i])),
{
    let mut profiles: Vec<NetworkProfile> = Vec::new();
    if with_baseline {
        profiles.push(NetworkProfile::NoEmulation);
    }
    let ghost first = profile_views(profiles@);
    let mut i: usize = 0;
    while i < percents.len()
        invariant
            i <= percents.len(),
            profile_views(profiles@) == first + Seq::new(
                i as nat,
                |k: int| NetworkProfileView::SimpleLoss(percents@[k]),
            ),
        decreases percents.len() - i,
    {
        let ghost before = profile_views(profiles@);
        profiles.push(NetworkProfile::SimpleLoss(percents[i]));
        assert(profile_views(profiles@) =~= before.push(
            NetworkProfileView::SimpleLoss(percents@[i as int]),
        ));
        assert(profile_views(profiles@) =~= first + Seq::new(
            (i + 1) as nat,
            |k: int| NetworkProfileView::SimpleLoss(percents@[k]),
        ));
        i = i + 1;
    }
    assert(first =~= if with_baseline {
        seq![NetworkProfileView::NoEmulation]
    } else {
        Seq::empty()
    });
    profiles
}

fn bandwidths(with_baseline: bool, rates: &Vec<u32>) -> (r: Vec<NetworkProfile>)
    ensures
        profile_views(r@) == (if with_baseline {
            seq![NetworkProfileView::NoEmulation]
        } else {
            Seq::empty()
        }) + Seq::new(rates@.len(), |i: int| NetworkProfileView::LimitedBandwidth(rates@[i])),
{
    let mut profiles: Vec<NetworkProfile> = Vec::new();
    if with_baseline {
        profiles.push(NetworkProfile::NoEmulation);
    }
    let ghost first = profile_views(profiles@);
    let mut i: usize = 0;
    while i < rates.len()
        invariant
            i <= rates.len(),
            profile_views(profiles@) == first + Seq::new(
                i as nat,
                |k: int| NetworkProfileView::LimitedBandwidth(rates@[k]),
            ),
        decreases rates.len() - i,
    {
        let ghost before = profile_views(profiles@);
        profiles.push(NetworkProfile::LimitedBandwidth(rates[i]));
        assert(profile_views(profiles@) =~= before.push(
            NetworkProfileView::LimitedBandwidth(rates@[i as int]),
        ));
        assert(profile_views(profiles@) =~= first + Seq::new(
            (i + 1) as nat,
            |k: int| NetworkProfileView::LimitedBandwidth(rates@[k]),
        ));
        i = i + 1;
    }
    assert(first =~= if with_baseline {
        seq![NetworkProfileView::NoEmulation]
    } else {
        Seq::empty()
    });
    profiles
}

fn one_profile(profile: NetworkProfile) -> (r: Vec<NetworkProfile>)
    ensures
        profile_views(r@) == seq![profile@],
{
    let mut profiles: Vec<NetworkProfile> = Vec::new();
    profiles.push(profile);
    profiles
}

fn one_group(name: &str, sounds: Vec<String>, group: GroupRun) -> (r: TestSet)
    ensures
        r@ == (TestSetView { name: name@, sounds: views(sounds@), groups: seq![group@] }),
{
    let mut groups: Vec<GroupRun> = Vec::new();
    groups.push(group);
    TestSet { name: String::from_str(name), sounds, groups }
}

fn usual_sounds() -> (r: Vec<String>)
    ensures
        views(r@) == seq![phrasing()],
{
    let mut sounds: Vec<String> = Vec::new();
    sounds.push(String::from_str("normal_phrasing"));
    sounds
}

fn no_sounds() -> (r: Vec<String>)
    ensures
        views(r@) == Seq::<Seq<char>>::empty(),
{
    let sounds: Vec<String> = Vec::new();
    sounds
}

/// A simple call without impairment: the place to start from.
pub fn example() -> (r: TestSet)
    ensures
        r@ == example_set(),
{
    let group = GroupRun {
        group: mos_group_named("example"),
        cases: one_case(case_named("default", usual_speaker(), CallConfig::default())),
        profiles: one_profile(NetworkProfile::NoEmulation),
    };
    one_group("example", usual_sounds(), group)
}

/// One call under each of the usual network profiles.
pub fn baseline_over_all_profiles() -> (r: TestSet)
    ensures
        r@ == baseline_over_all_profiles_set(),
{
    let mut profiles: Vec<NetworkProfile> = Vec::new();
    profiles.push(NetworkProfile::Default);
    profiles.push(NetworkProfile::Moderate);
    profiles.push(NetworkProfile::International);
    profiles.push(NetworkProfile::SpikyLoss);
    profiles.push(NetworkProfile::LimitedBandwidth(250));
    profiles.push(NetworkProfile::LimitedBandwidth(100));
    profiles.push(NetworkProfile::LimitedBandwidth(50));
    profiles.push(NetworkProfile::SimpleLoss(10));
    profiles.push(NetworkProfile::SimpleLoss(30));
    assert(profile_views(profiles@) =~= baseline_over_all_profiles_set().groups[0].profiles);
    let group = GroupRun {
        group: mos_group_named("baseline_over_all_profiles"),
        cases: one_case(case_named("default", usual_speaker(), usual_speaker())),
        profiles,
    };
    one_group("baseline_over_all_profiles", no_sounds(), group)
}

/// Calls with and without DTX over a range of losses.
pub fn dtx_tests_with_loss() -> (r: TestSet)
    ensures
        r@ == dtx_tests_with_loss_set(),
{
    let mut cases: Vec<TestCaseConfig> = Vec::new();
    cases.push(case_named("with_dtx", usual_speaker(), usual_speaker()));
    cases.push(
        case_named(
            "no_dtx",
            speaker_sending("normal_phrasing", 20, false),
            speaker_sending("normal_phrasing", 20, false),
        ),
    );
    assert(case_views(cases@) =~= dtx_tests_with_loss_set().groups[0].cases);
    let mut percents: Vec<u8> = Vec::new();
    percents.push(5);
    percents.push(10);
    percents.push(20);
    percents.push(30);
    percents.push(40);
    let profiles = losses(true, &percents);
    assert(profile_views(profiles@) =~= dtx_tests_with_loss_set().groups[0].profiles);
    let group = GroupRun { group: mos_group_named("dtx_tests_with_loss"), cases, profiles };
    one_group("dtx_tests_with_loss", no_sounds(), group)
}

/// Calls without a relay, with one on offer, and forced through one over UDP and
/// over TCP.
pub fn example_with_relay() -> (r: TestSet)
    ensures
        r@ == example_with_relay_set(),
{
    let mut offered_a: Vec<String> = Vec::new();
    offered_a.push(String::from_str("turn:turn"));
    offered_a.push(String::from_str("turn:turn:80?transport=tcp"));
    assert(views(offered_a@) =~= seq![turn_udp(), turn_tcp()]);
    let mut offered_b: Vec<String> = Vec::new();
    offered_b.push(String::from_str("stun:turn"));
    offered_b.push(String::from_str("turn:turn"));
    offered_b.push(String::from_str("turn:turn:80?transport=tcp"));
    assert(views(offered_b@) =~= seq!["stun:turn"@, turn_udp(), turn_tcp()]);
    let mut udp_a: Vec<String> = Vec::new();
    udp_a.push(String::from_str("turn:turn"));
    assert(views(udp_a@) =~= seq![turn_udp()]);
    let mut udp_b: Vec<String> = Vec::new();
    udp_b.push(String::from_str("turn:turn"));
    assert(views(udp_b@) =~= seq![turn_udp()]);
    let mut tcp_a: Vec<String> = Vec::new();
    tcp_a.push(String::from_str("turn:turn:80?transport=tcp"));
    assert(views(tcp_a@) =~= seq![turn_tcp()]);
    let mut tcp_b: Vec<String> = Vec::new();
    tcp_b.push(String::from_str("turn:turn:80?transport=tcp"));
    assert(views(tcp_b@) =~= seq![turn_tcp()]);
    let mut cases: Vec<TestCaseConfig> = Vec::new();
    cases.push(case_named("no_relay", usual_speaker(), usual_speaker()));
    cases.push(
        case_named(
            "with_relay",
            relayed_through(offered_a, false),
            relayed_through(offered_b, false),
        ),
    );
    cases.push(
        case_named("force_udp_relay", relayed_through(udp_a, true), relayed_through(udp_b, true)),
    );
    cases.push(
        case_named("force_tcp_relay", relayed_through(tcp_a, true), relayed_through(tcp_b, true)),
    );
    assert(case_views(cases@) =~= example_with_relay_set().groups[0].cases);
    let group = GroupRun {
        group: mos_group_named("example_with_relay"),
        cases,
        profiles: one_profile(NetworkProfile::NoEmulation),
    };
    one_group("example_with_relay", no_sounds(), group)
}

/// Four packet sizes, over a range of losses and over a range of bandwidths, each
/// range in a group of its own.
pub fn ptime_analysis() -> (r: TestSet)
    ensures
        r@ == ptime_analysis_set(),
{
    let mut sounds: Vec<String> = Vec::new();
    sounds.push(String::from_str("speaker_a"));
    sounds.push(String::from_str("speaker_b"));
    let mut percents: Vec<u8> = Vec::new();
    percents.push(10);
    percents.push(20);
    percents.push(30);
    percents.push(40);
    percents.push(50);
    let loss_profiles = losses(true, &percents);
    assert(profile_views(loss_profiles@) =~= ptime_analysis_set().groups[0].profiles);
    let mut rates: Vec<u32> = Vec::new();
    rates.push(250);
    rates.push(125);
    rates.push(100);
    rates.push(75);
    rates.push(50);
    rates.push(25);
    let rate_profiles = bandwidths(true, &rates);
    assert(profile_views(rate_profiles@) =~= ptime_analysis_set().groups[1].profiles);
    let over_loss = GroupRun {
        group: mos_group_named("ptime_over_loss"),
        cases: ptime_cases(),
        profiles: loss_profiles,
    };
    let over_bandwidth = GroupRun {
        group: mos_group_named("ptime_over_bandwidth"),
        cases: ptime_cases(),
        profiles: rate_profiles,
    };
    let mut groups: Vec<GroupRun> = Vec::new();
    groups.push(over_loss);
    groups.push(over_bandwidth);
    TestSet { name: String::from_str("ptime_analysis"), sounds, groups }
}

/// A call that sends video one way, over a range of bandwidths.
pub fn video_send_over_bandwidth() -> (r: TestSet)
    ensures
        r@ == video_send_over_bandwidth_set(),
{
    let mut rates: Vec<u32> = Vec::new();
    rates.push(2000);
    rates.push(1500);
    rates.push(1250);
    rates.push(1000);
    rates.push(750);
    rates.push(500);
    rates.push(250);
    rates.push(125);
    rates.push(100);
    rates.push(75);
    rates.push(50);
    let profiles = bandwidths(true, &rates);
    assert(profile_views(profiles@) =~= video_send_over_bandwidth_set().groups[0].profiles);
    let group = GroupRun {
        group: mos_group_named("video_send_over_bandwidth"),
        cases: one_case(case_named("video", presenter_with(false), usual_speaker())),
        profiles,
    };
    one_group("video_send_over_bandwidth", usual_sounds(), group)
}

/// Calls that send video both ways, once with VP8 and once with VP9.
pub fn video_compare_vp8_vs_vp9() -> (r: TestSet)
    ensures
        r@ == video_compare_vp8_vs_vp9_set(),
{
    let mut cases: Vec<TestCaseConfig> = Vec::new();
    cases.push(case_named("vp8", presenter_with(false), presenter_with(false)));
    cases.push(case_named("vp9", presenter_with(true), presenter_with(true)));
    assert(case_views(cases@) =~= video_compare_vp8_vs_vp9_set().groups[0].cases);
    let group = GroupRun {
        group: mos_group_named("video_compare_vp8_vs_vp9"),
        cases,
        profiles: one_profile(NetworkProfile::Default),
    };
    one_group("video_compare_vp8_vs_vp9", usual_sounds(), group)
}

/// Three packet sizes over four minutes in which the bandwidth changes every minute.
pub fn changing_bandwidth_audio_test() -> (r: TestSet)
    ensures
        r@ == changing_bandwidth_audio_test_set(),
{
    let mut cases: Vec<TestCaseConfig> = Vec::new();
    cases.push(long_ptime_case_for(20));
    cases.push(long_ptime_case_for(60));
    cases.push(long_ptime_case_for(120));
    assert(case_views(cases@) =~= changing_bandwidth_audio_test_set().groups[0].cases);
    let mut entries: Vec<NetworkConfigWithOffset> = Vec::new();
    entries.push(NetworkConfigWithOffset::at_secs(0, NetworkConfig::unimpaired()));
    entries.push(NetworkConfigWithOffset::at_secs(60, NetworkConfig::limited_to(50)));
    entries.push(NetworkConfigWithOffset::at_secs(120, NetworkConfig::limited_to(25)));
    entries.push(NetworkConfigWithOffset::at_secs(180, NetworkConfig::unimpaired()));
    let profile = NetworkProfile::Custom(String::from_str("limit_default"), entries);
    assert(profile@ =~= limit_default());
    let group = GroupRun {
        group: mos_group_named("changing_bandwidth_audio_test"),
        cases,
        profiles: one_profile(profile),
    };
    one_group("changing_bandwidth_audio_test", no_sounds(), group)
}

/// The test set called `name`, if there is one.
pub open spec fn set_named(name: Seq<char>) -> Option<TestSetView> {
    if name == "example"@ {
        Some(example_set())
    } else if name == "baseline_over_all_profiles"@ {
        Some(baseline_over_all_profiles_set())
    } else if name == "dtx_tests_with_loss"@ {
        Some(dtx_tests_with_loss_set())
    } else if name == "example_with_relay"@ {
        Some(example_with_relay_set())
    } else if name == "ptime_analysis"@ {
        Some(ptime_analysis_set())
    } else if name == "video_send_over_bandwidth"@ {
        Some(video_send_over_bandwidth_set())
    } else if name == "video_compare_vp8_vs_vp9"@ {
        Some(video_compare_vp8_vs_vp9_set())
    } else if name == "changing_bandwidth_audio_test"@ {
        Some(changing_bandwidth_audio_test_set())
    } else {
        None
    }
}

/// The test set called `name`, if there is one.
pub fn find(name: &str) -> (r: Option<TestSet>)
    ensures
        match r {
            Some(set) => set_named(name@) == Some(set@),
            None => set_named(name@) is None,
        },
{
    let wanted = String::from_str(name);
    if wanted == String::from_str("example") {
        Some(example())
    } else if wanted == String::from_str("baseline_over_all_profiles") {
        Some(baseline_over_all_profiles())
    } else if wanted == String::from_str("dtx_tests_with_loss") {
        Some(dtx_tests_with_loss())
    } else if wanted == String::from_str("example_with_relay") {
        Some(example_with_relay())
    } else if wanted == String::from_str("ptime_analysis") {
        Some(ptime_analysis())
    } else if wanted == String::from_str("video_send_over_bandwidth") {
        Some(video_send_over_bandwidth())
    } else if wanted == String::from_str("video_compare_vp8_vs_vp9") {
        Some(video_compare_vp8_vs_vp9())
    } else if wanted == String::from_str("changing_bandwidth_audio_test") {
        Some(changing_bandwidth_audio_test())
    } else {
        None
    }
}

} // verus!
