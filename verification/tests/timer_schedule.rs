use call_sim::error::ConfigurationError;
use call_sim::network::{NetworkConfig, NetworkConfigWithOffset, NetworkProfile};
use call_sim::timer::{ImpairmentTimer, TimerAction};

fn limit_default() -> NetworkProfile {
    NetworkProfile::Custom(
        "limit_default".to_string(),
        vec![
            NetworkConfigWithOffset::at_secs(0, NetworkConfig::unimpaired()),
            NetworkConfigWithOffset::at_secs(60, NetworkConfig::limited_to(50)),
            NetworkConfigWithOffset::at_secs(120, NetworkConfig::limited_to(25)),
            NetworkConfigWithOffset::at_secs(180, NetworkConfig::unimpaired()),
        ],
    )
}

#[test]
fn timer_applies_each_entry_at_its_offset() {
    let mut timer = ImpairmentTimer::start(&limit_default(), 240_000).unwrap();
    assert_eq!(timer.len(), 4);
    assert_eq!(timer.poll(0), TimerAction::Apply { config: NetworkConfig::unimpaired() });
    assert_eq!(timer.poll(0), TimerAction::Sleep { ms: 60_000 });
    assert_eq!(timer.poll(59_950), TimerAction::Sleep { ms: 50 });
    assert_eq!(timer.applied(), 1);
    assert_eq!(timer.poll(60_000), TimerAction::Apply { config: NetworkConfig::limited_to(50) });
    assert_eq!(timer.poll(60_001), TimerAction::Sleep { ms: 59_999 });
    assert_eq!(timer.poll(120_040), TimerAction::Apply { config: NetworkConfig::limited_to(25) });
    assert_eq!(timer.poll(180_000), TimerAction::Apply { config: NetworkConfig::unimpaired() });
    assert_eq!(timer.poll(180_000), TimerAction::Done);
    assert_eq!(timer.poll(240_000), TimerAction::Done);
    assert_eq!(timer.applied(), 4);
}

#[test]
fn changing_bandwidth_call_has_exactly_four_changes() {
    let mut timer = ImpairmentTimer::start(&limit_default(), 240_000).unwrap();
    let mut applied_at: Vec<u64> = vec![];
    let mut now: u64 = 0;
    while now < 240_000 {
        match timer.poll(now) {
            TimerAction::Apply { .. } => applied_at.push(now),
            TimerAction::Sleep { ms } => now += ms.min(100),
            TimerAction::Done => now += 100,
        }
    }
    assert_eq!(applied_at, vec![0, 60_000, 120_000, 180_000]);
}

#[test]
fn late_timer_skips_nothing_and_keeps_the_order() {
    let mut timer = ImpairmentTimer::start(&limit_default(), 240_000).unwrap();
    let mut applied: Vec<NetworkConfig> = vec![];
    loop {
        match timer.poll(200_000) {
            TimerAction::Apply { config } => applied.push(config),
            TimerAction::Sleep { .. } => panic!("nothing is left to wait for"),
            TimerAction::Done => break,
        }
    }
    assert_eq!(
        applied,
        vec![
            NetworkConfig::unimpaired(),
            NetworkConfig::limited_to(50),
            NetworkConfig::limited_to(25),
            NetworkConfig::unimpaired(),
        ]
    );
}

#[test]
fn cancelled_timer_applies_nothing() {
    let mut timer = ImpairmentTimer::start(&limit_default(), 240_000).unwrap();
    assert_eq!(timer.poll(0), TimerAction::Apply { config: NetworkConfig::unimpaired() });
    timer.cancel();
    assert_eq!(timer.poll(60_000), TimerAction::Done);
    assert_eq!(timer.poll(u64::MAX), TimerAction::Done);
    assert_eq!(timer.applied(), 1);
}

#[test]
fn timer_applies_only_what_falls_into_the_call() {
    let mut timer = ImpairmentTimer::start(&limit_default(), 100_000).unwrap();
    assert_eq!(timer.len(), 2);
    assert_eq!(timer.poll(100_000), TimerAction::Apply { config: NetworkConfig::unimpaired() });
    assert_eq!(timer.poll(100_000), TimerAction::Apply { config: NetworkConfig::limited_to(50) });
    assert_eq!(timer.poll(100_000), TimerAction::Done);
}

#[test]
fn timer_without_emulation_has_nothing_to_do() {
    let mut timer = ImpairmentTimer::start(&NetworkProfile::NoEmulation, 30_000).unwrap();
    assert_eq!(timer.len(), 0);
    assert_eq!(timer.poll(0), TimerAction::Done);
    let mut empty = ImpairmentTimer::new(vec![]);
    assert_eq!(empty.poll(5), TimerAction::Done);
}

#[test]
fn timer_is_not_started_for_a_profile_that_does_not_resolve() {
    let profile = NetworkProfile::Custom(
        "late".to_string(),
        vec![NetworkConfigWithOffset::at_secs(1, NetworkConfig::losing(1))],
    );
    assert!(matches!(
        ImpairmentTimer::start(&profile, 30_000),
        Err(ConfigurationError::MissingInitialState)
    ));
}
