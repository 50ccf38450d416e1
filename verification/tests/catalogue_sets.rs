use call_sim::catalogue::{self, GroupRun, TestSet};
use call_sim::error::ConfigurationError;
use call_sim::config::{AudioAnalysisMode, CallConfig, MetricKind, TestCaseConfig};
use call_sim::matrix::expand;
use call_sim::network::{NetworkConfig, NetworkConfigWithOffset, NetworkProfile};

fn runs(set: &TestSet) -> Vec<usize> {
    set.groups
        .iter()
        .map(|run| expand(&run.group, &run.cases, &run.profiles).unwrap().len())
        .collect()
}

fn names(set: &TestSet, group: usize) -> Vec<String> {
    set.groups[group].cases.iter().map(|case| case.name.clone()).collect()
}

fn labels(set: &TestSet, group: usize) -> Vec<String> {
    set.groups[group].profiles.iter().map(|profile| profile.label()).collect()
}

#[test]
fn defaults_are_as_documented() {
    let case = TestCaseConfig::default();
    assert_eq!(case.name, "default");
    assert_eq!(case.duration, 30);
    assert_eq!(case.duration_ms(), 30_000);
    assert_eq!(case.client_a, CallConfig::default());
    let call = CallConfig::default();
    assert_eq!(call.audio.input_name, None);
    assert_eq!(call.audio.packet_size_ms, 20);
    assert!(call.audio.enable_dtx);
    assert_eq!(call.audio.analysis_mode, AudioAnalysisMode::Full);
    assert!(call.audio.generate_spectrogram);
    assert_eq!(call.video.input_name, None);
    assert!(!call.video.enable_vp9);
    assert!(call.relay_servers.is_empty());
    assert!(!call.force_relay);
    assert!(!call.uses_relay());
    let named = CallConfig::default().with_audio_input_name("normal_phrasing");
    assert_eq!(named.audio.input_name, Some("normal_phrasing".to_string()));
    assert_eq!(named.audio.packet_size_ms, 20);
    assert_eq!(named.video, call.video);
}

#[test]
fn every_set_is_found_by_its_name_and_can_be_run() {
    let expected: Vec<(&str, Vec<usize>)> = vec![
        ("example", vec![1]),
        ("baseline_over_all_profiles", vec![9]),
        ("dtx_tests_with_loss", vec![12]),
        ("example_with_relay", vec![4]),
        ("ptime_analysis", vec![24, 28]),
        ("video_send_over_bandwidth", vec![12]),
        ("video_compare_vp8_vs_vp9", vec![2]),
        ("changing_bandwidth_audio_test", vec![3]),
    ];
    for (name, counts) in expected {
        let set = catalogue::find(name).unwrap();
        assert_eq!(set.name, name);
        assert_eq!(set.validate(), Ok(()));
        assert_eq!(runs(&set), counts);
        for run in &set.groups {
            assert_eq!(run.group.chart_dimensions, vec![MetricKind::Mos]);
            assert!(run.group.x_axis_labels.is_empty());
        }
    }
    assert_eq!(catalogue::find("unknown"), None);
    assert_eq!(catalogue::find(""), None);
    assert_eq!(catalogue::find("Example"), None);
}

#[test]
fn example_set() {
    let set = catalogue::example();
    assert_eq!(set, catalogue::find("example").unwrap());
    assert_eq!(set.sounds, vec!["normal_phrasing"]);
    assert_eq!(set.groups.len(), 1);
    assert_eq!(set.groups[0].group.name, "example");
    assert_eq!(names(&set, 0), vec!["default"]);
    assert_eq!(labels(&set, 0), vec!["none"]);
    let case = &set.groups[0].cases[0];
    assert_eq!(case.client_a, CallConfig::default().with_audio_input_name("normal_phrasing"));
    assert_eq!(case.client_b, CallConfig::default());
    assert_eq!(case.duration, 30);
}

#[test]
fn baseline_set() {
    let set = catalogue::baseline_over_all_profiles();
    assert!(set.sounds.is_empty());
    assert_eq!(
        labels(&set, 0),
        vec![
            "default",
            "moderate",
            "international",
            "spiky_loss",
            "limited_bandwidth_250",
            "limited_bandwidth_100",
            "limited_bandwidth_50",
            "simple_loss_10",
            "simple_loss_30",
        ]
    );
    let case = &set.groups[0].cases[0];
    assert_eq!(case.client_a, case.client_b);
    assert_eq!(case.client_b.audio.input_name, Some("normal_phrasing".to_string()));
}

#[test]
fn dtx_set() {
    let set = catalogue::dtx_tests_with_loss();
    assert_eq!(names(&set, 0), vec!["with_dtx", "no_dtx"]);
    assert_eq!(
        labels(&set, 0),
        vec!["none", "simple_loss_5", "simple_loss_10", "simple_loss_20", "simple_loss_30", "simple_loss_40"]
    );
    let cases = &set.groups[0].cases;
    assert!(cases[0].client_a.audio.enable_dtx && cases[0].client_b.audio.enable_dtx);
    assert!(!cases[1].client_a.audio.enable_dtx && !cases[1].client_b.audio.enable_dtx);
    assert_eq!(cases[1].client_a.audio.input_name, Some("normal_phrasing".to_string()));
}

#[test]
fn relay_set() {
    let set = catalogue::example_with_relay();
    assert_eq!(names(&set, 0), vec!["no_relay", "with_relay", "force_udp_relay", "force_tcp_relay"]);
    assert_eq!(set.groups[0].profiles, vec![NetworkProfile::NoEmulation]);
    let cases = &set.groups[0].cases;
    assert!(!cases[0].client_a.uses_relay());
    assert_eq!(cases[1].client_a.relay_servers, vec!["turn:turn", "turn:turn:80?transport=tcp"]);
    assert_eq!(
        cases[1].client_b.relay_servers,
        vec!["stun:turn", "turn:turn", "turn:turn:80?transport=tcp"]
    );
    assert!(!cases[1].client_a.force_relay);
    assert!(cases[1].client_a.uses_relay());
    assert_eq!(cases[2].client_a.relay_servers, vec!["turn:turn"]);
    assert!(cases[2].client_a.force_relay && cases[2].client_b.force_relay);
    assert_eq!(cases[3].client_b.relay_servers, vec!["turn:turn:80?transport=tcp"]);
    assert!(cases[3].client_a.force_relay && cases[3].client_b.force_relay);
    for case in cases {
        assert_eq!(case.client_a.audio.input_name, Some("normal_phrasing".to_string()));
    }
}

#[test]
fn ptime_set() {
    let set = catalogue::ptime_analysis();
    assert_eq!(set.sounds, vec!["speaker_a", "speaker_b"]);
    assert_eq!(set.groups[0].group.name, "ptime_over_loss");
    assert_eq!(set.groups[1].group.name, "ptime_over_bandwidth");
    for group in 0..2 {
        assert_eq!(names(&set, group), vec!["ptime_20", "ptime_40", "ptime_60", "ptime_120"]);
        let sizes: Vec<u32> =
            set.groups[group].cases.iter().map(|case| case.client_a.audio.packet_size_ms).collect();
        assert_eq!(sizes, vec![20, 40, 60, 120]);
    }
    assert_eq!(set.groups[0].cases, set.groups[1].cases);
    assert_eq!(
        labels(&set, 0),
        vec!["none", "simple_loss_10", "simple_loss_20", "simple_loss_30", "simple_loss_40", "simple_loss_50"]
    );
    assert_eq!(
        labels(&set, 1),
        vec![
            "none",
            "limited_bandwidth_250",
            "limited_bandwidth_125",
            "limited_bandwidth_100",
            "limited_bandwidth_75",
            "limited_bandwidth_50",
            "limited_bandwidth_25",
        ]
    );
}

#[test]
fn video_sets() {
    let send = catalogue::video_send_over_bandwidth();
    assert_eq!(send.sounds, vec!["normal_phrasing"]);
    let case = &send.groups[0].cases[0];
    assert_eq!(case.name, "video");
    assert_eq!(case.client_a.video.input_name, Some("ConferenceMotion_50fps@1280x720".to_string()));
    assert_eq!(case.client_b.video.input_name, None);
    assert_eq!(labels(&send, 0).len(), 12);
    assert_eq!(labels(&send, 0)[1], "limited_bandwidth_2000");
    assert_eq!(labels(&send, 0)[11], "limited_bandwidth_50");

    let compare = catalogue::video_compare_vp8_vs_vp9();
    assert_eq!(names(&compare, 0), vec!["vp8", "vp9"]);
    assert_eq!(compare.groups[0].profiles, vec![NetworkProfile::Default]);
    let cases = &compare.groups[0].cases;
    assert!(!cases[0].client_a.video.enable_vp9 && !cases[0].client_b.video.enable_vp9);
    assert!(cases[1].client_a.video.enable_vp9 && cases[1].client_b.video.enable_vp9);
    assert_eq!(cases[1].client_b.video.input_name, Some("ConferenceMotion_50fps@1280x720".to_string()));
}

#[test]
fn changing_bandwidth_set() {
    let set = catalogue::changing_bandwidth_audio_test();
    assert_eq!(names(&set, 0), vec!["ptime_20", "ptime_60", "ptime_120"]);
    assert_eq!(labels(&set, 0), vec!["limit_default"]);
    for case in &set.groups[0].cases {
        assert_eq!(case.duration, 240);
        for client in [&case.client_a, &case.client_b] {
            assert_eq!(client.audio.input_name, Some("normal_12s".to_string()));
            assert_eq!(client.audio.analysis_mode, AudioAnalysisMode::Chopped);
            assert!(!client.audio.generate_spectrogram);
            assert!(client.audio.enable_dtx);
        }
    }
    let timeline = set.groups[0].profiles[0].resolve().unwrap();
    let changes: Vec<(u64, Option<u32>)> =
        timeline.iter().map(|entry| (entry.offset_ms, entry.network_config.rate_kbps)).collect();
    assert_eq!(
        changes,
        vec![(0, None), (60_000, Some(50)), (120_000, Some(25)), (180_000, None)]
    );
}

#[test]
fn set_with_a_group_that_cannot_be_run_is_turned_down() {
    let mut set = catalogue::ptime_analysis();
    assert_eq!(set.validate(), Ok(()));
    set.groups[1].profiles.push(NetworkProfile::LimitedBandwidth(250));
    assert_eq!(set.validate(), Err(ConfigurationError::DuplicateProfileLabel));
    let unsorted = NetworkProfile::Custom(
        "unsorted".to_string(),
        vec![
            NetworkConfigWithOffset::at_secs(0, NetworkConfig::unimpaired()),
            NetworkConfigWithOffset::at_secs(2, NetworkConfig::losing(1)),
            NetworkConfigWithOffset::at_secs(1, NetworkConfig::losing(2)),
        ],
    );
    set.groups[0].profiles.push(unsorted);
    assert_eq!(set.validate(), Err(ConfigurationError::OffsetsNotIncreasing));
    let first = set.groups[0].cases[0].clone();
    set.groups[0].cases.push(first);
    assert_eq!(set.validate(), Err(ConfigurationError::DuplicateTestCaseName));
    let mut doubled = catalogue::ptime_analysis();
    doubled.groups[1].group.name = "ptime_over_loss".to_string();
    doubled.groups[1].profiles.push(NetworkProfile::LimitedBandwidth(250));
    assert_eq!(doubled.validate(), Err(ConfigurationError::DuplicateGroupName));
    let empty = TestSet { name: "empty".to_string(), sounds: vec![], groups: vec![] };
    assert_eq!(empty.validate(), Ok(()));
    let hollow = TestSet {
        name: "hollow".to_string(),
        sounds: vec![],
        groups: vec![GroupRun {
            group: catalogue::example().groups[0].group.clone(),
            cases: vec![],
            profiles: vec![],
        }],
    };
    assert_eq!(hollow.validate(), Ok(()));
}
