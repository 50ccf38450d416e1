use call_sim::error::ConfigurationError;
use call_sim::network::{schedule, NetworkConfig, NetworkConfigWithOffset, NetworkProfile};
use call_sim::text::decimal_string;

fn offsets(timeline: &[NetworkConfigWithOffset]) -> Vec<u64> {
    timeline.iter().map(|entry| entry.offset_ms).collect()
}

fn limit_default() -> NetworkProfile {
    NetworkProfile::Custom(
        "limit_default".to_string(),
        vec![
            NetworkConfigWithOffset::at_secs(0, NetworkConfig::unimpaired()),
            NetworkConfigWithOffset::at_secs(60, NetworkConfig::limited_to(50)),
            NetworkConfigWithOffset::at_secs(120, NetworkConfig::limited_to(25)),
            NetworkConfigWithOffset::at_secs(180, NetworkConfig::unimpaired()),
        ],
    )
}

#[test]
fn decimal_rendering() {
    assert_eq!(decimal_string(0), "0");
    assert_eq!(decimal_string(7), "7");
    assert_eq!(decimal_string(10), "10");
    assert_eq!(decimal_string(250), "250");
    assert_eq!(decimal_string(u64::MAX), "18446744073709551615");
}

#[test]
fn labels_are_canonical() {
    assert_eq!(NetworkProfile::NoEmulation.label(), "none");
    assert_eq!(NetworkProfile::Default.label(), "default");
    assert_eq!(NetworkProfile::Moderate.label(), "moderate");
    assert_eq!(NetworkProfile::International.label(), "international");
    assert_eq!(NetworkProfile::SpikyLoss.label(), "spiky_loss");
    assert_eq!(NetworkProfile::LimitedBandwidth(250).label(), "limited_bandwidth_250");
    assert_eq!(NetworkProfile::SimpleLoss(10).label(), "simple_loss_10");
    assert_eq!(NetworkProfile::SimpleLoss(0).label(), "simple_loss_0");
    assert_eq!(limit_default().label(), "limit_default");
}

#[test]
fn shorthand_profiles_resolve_to_one_entry() {
    let limited = NetworkProfile::LimitedBandwidth(100).resolve().unwrap();
    assert_eq!(
        limited,
        vec![NetworkConfigWithOffset {
            offset_ms: 0,
            network_config: NetworkConfig { rate_kbps: Some(100), loss_percent: None, delay_ms: None },
        }]
    );
    let lossy = NetworkProfile::SimpleLoss(10).resolve().unwrap();
    assert_eq!(
        lossy,
        vec![NetworkConfigWithOffset {
            offset_ms: 0,
            network_config: NetworkConfig { rate_kbps: None, loss_percent: Some(10), delay_ms: None },
        }]
    );
}

#[test]
fn no_emulation_resolves_to_nothing() {
    assert_eq!(NetworkProfile::NoEmulation.resolve().unwrap(), vec![]);
}

#[test]
fn every_resolved_timeline_is_ordered_and_starts_at_zero() {
    let profiles = vec![
        NetworkProfile::Default,
        NetworkProfile::Moderate,
        NetworkProfile::International,
        NetworkProfile::SpikyLoss,
        NetworkProfile::LimitedBandwidth(50),
        NetworkProfile::SimpleLoss(30),
        limit_default(),
    ];
    for profile in profiles {
        let timeline = profile.resolve().unwrap();
        assert_eq!(timeline[0].offset_ms, 0);
        for pair in timeline.windows(2) {
            assert!(pair[0].offset_ms < pair[1].offset_ms);
        }
    }
}

#[test]
fn spiky_loss_has_two_spikes() {
    let timeline = NetworkProfile::SpikyLoss.resolve().unwrap();
    assert_eq!(offsets(&timeline), vec![0, 10_000, 12_000, 20_000, 22_000]);
    assert!(timeline[0].network_config.is_unimpaired());
    assert_eq!(timeline[1].network_config.loss_percent, Some(50));
    assert!(timeline[2].network_config.is_unimpaired());
    assert_eq!(timeline[3].network_config, NetworkConfig::losing(50));
    assert!(timeline[4].network_config.is_unimpaired());
}

#[test]
fn custom_profile_passes_through() {
    let timeline = limit_default().resolve().unwrap();
    assert_eq!(offsets(&timeline), vec![0, 60_000, 120_000, 180_000]);
    assert_eq!(timeline[1].network_config.rate_kbps, Some(50));
    assert_eq!(timeline[2].network_config.rate_kbps, Some(25));
    assert!(timeline[3].network_config.is_unimpaired());
}

#[test]
fn custom_profile_with_duplicate_offset_is_rejected() {
    let profile = NetworkProfile::Custom(
        "twice".to_string(),
        vec![
            NetworkConfigWithOffset::at_secs(0, NetworkConfig::unimpaired()),
            NetworkConfigWithOffset::at_secs(10, NetworkConfig::losing(5)),
            NetworkConfigWithOffset::at_secs(10, NetworkConfig::losing(10)),
        ],
    );
    assert_eq!(profile.resolve(), Err(ConfigurationError::OffsetsNotIncreasing));
    assert_eq!(schedule(&profile, 30_000), Err(ConfigurationError::OffsetsNotIncreasing));
}

#[test]
fn custom_profile_with_decreasing_offsets_is_rejected() {
    let profile = NetworkProfile::Custom(
        "backwards".to_string(),
        vec![
            NetworkConfigWithOffset::at_secs(0, NetworkConfig::unimpaired()),
            NetworkConfigWithOffset::at_secs(20, NetworkConfig::losing(5)),
            NetworkConfigWithOffset::at_secs(10, NetworkConfig::losing(10)),
        ],
    );
    assert_eq!(profile.resolve(), Err(ConfigurationError::OffsetsNotIncreasing));
}

#[test]
fn custom_profile_without_entries_is_rejected() {
    let profile = NetworkProfile::Custom("empty".to_string(), vec![]);
    assert_eq!(profile.resolve(), Err(ConfigurationError::EmptyCustomProfile));
}

#[test]
fn custom_profile_without_initial_state_is_rejected() {
    let profile = NetworkProfile::Custom(
        "late".to_string(),
        vec![NetworkConfigWithOffset::at_secs(5, NetworkConfig::losing(5))],
    );
    assert_eq!(profile.resolve(), Err(ConfigurationError::MissingInitialState));
}

#[test]
fn schedule_keeps_what_falls_into_the_call() {
    let profile = limit_default();
    assert_eq!(offsets(&schedule(&profile, 240_000).unwrap()), vec![0, 60_000, 120_000, 180_000]);
    assert_eq!(offsets(&schedule(&profile, 180_000).unwrap()), vec![0, 60_000, 120_000]);
    assert_eq!(offsets(&schedule(&profile, 60_001).unwrap()), vec![0, 60_000]);
    assert_eq!(offsets(&schedule(&profile, 1).unwrap()), vec![0]);
    assert_eq!(offsets(&schedule(&profile, 0).unwrap()), Vec::<u64>::new());
}

#[test]
fn default_network_config_is_unimpaired() {
    assert!(NetworkConfig::default().is_unimpaired());
    assert!(!NetworkConfig::limited_to(50).is_unimpaired());
    assert_eq!(NetworkConfigWithOffset::at_secs(u32::MAX, NetworkConfig::unimpaired()).offset_ms, 4_294_967_295_000);
}
