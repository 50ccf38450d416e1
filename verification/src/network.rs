//! Network profiles and the impairment timelines they resolve to.

use vstd::prelude::*;
use crate::error::ConfigurationError;
use crate::text::{
    decimal, decimal_string, lemma_decimal_is_injective, lemma_decimal_length, lemma_same_prefix,
};

verus! {

/// A point-in-time impairment setting. An unset field leaves that dimension unimpaired.
#[derive(Clone, Copy, Debug, PartialEq, Eq, Structural)]
pub struct NetworkConfig {
    /// Bandwidth cap in kilobits per second.
    pub rate_kbps: Option<u32>,
    /// Share of packets dropped, in percent.
    pub loss_percent: Option<u8>,
    /// One-way delay added to every packet, in milliseconds.
    pub delay_ms: Option<u32>,
}

/// An impairment setting together with the time, counted in milliseconds from the
/// start of the call, at which it takes effect.
#[derive(Clone, Copy, Debug, PartialEq, Eq, Structural)]
pub struct NetworkConfigWithOffset {
    pub offset_ms: u64,
    pub network_config: NetworkConfig,
}

/// How network conditions evolve over a call.
#[derive(Clone, Debug, PartialEq, Eq)]
pub enum NetworkProfile {
    /// Nothing is emulated.
    NoEmulation,
    Default,
    Moderate,
    International,
    SpikyLoss,
    /// A constant bandwidth cap, in kilobits per second.
    LimitedBandwidth(u32),
    /// A constant packet loss, in percent.
    SimpleLoss(u8),
    /// A labelled sequence of settings, each with the offset at which it starts.
    Custom(String, Vec<NetworkConfigWithOffset>),
}

/// The value of a `NetworkProfile`.
#[verifier::ext_equal]
pub enum NetworkProfileView {
    NoEmulation,
    Default,
    Moderate,
    International,
    SpikyLoss,
    LimitedBandwidth(u32),
    SimpleLoss(u8),
    Custom(Seq<char>, Seq<NetworkConfigWithOffset>),
}

impl View for NetworkProfile {
    type V = NetworkProfileView;

    open spec fn view(&self) -> NetworkProfileView {
        match self {
            NetworkProfile::NoEmulation => NetworkProfileView::NoEmulation,
            NetworkProfile::Default => NetworkProfileView::Default,
            NetworkProfile::Moderate => NetworkProfileView::Moderate,
            NetworkProfile::International => NetworkProfileView::International,
            NetworkProfile::SpikyLoss => NetworkProfileView::SpikyLoss,
            NetworkProfile::LimitedBandwidth(rate) => NetworkProfileView::LimitedBandwidth(*rate),
            NetworkProfile::SimpleLoss(loss) => NetworkProfileView::SimpleLoss(*loss),
            NetworkProfile::Custom(label, entries) => NetworkProfileView::Custom(label@, entries@),
        }
    }
}

/// A timeline: offsets strictly increase along it.
pub open spec fn strictly_increasing(t: Seq<NetworkConfigWithOffset>) -> bool {
    forall|i: int, j: int| 0 <= i < j < t.len() ==> t[i].offset_ms < t[j].offset_ms
}

/// The predicate "takes effect before `end_ms`".
pub open spec fn starts_before(end_ms: u64) -> spec_fn(NetworkConfigWithOffset) -> bool {
    |e: NetworkConfigWithOffset| e.offset_ms < end_ms
}

/// The entries of `t` that take effect while a call of `call_duration_ms` lasts.
pub open spec fn clamp(t: Seq<NetworkConfigWithOffset>, call_duration_ms: u64) -> Seq<
    NetworkConfigWithOffset,
> {
    t.filter(starts_before(call_duration_ms))
}

/// The setting that impairs nothing.
pub open spec fn unimpaired() -> NetworkConfig {
    NetworkConfig { rate_kbps: None, loss_percent: None, delay_ms: None }
}

/// The entry that puts `config` in effect from the start of the call.
pub open spec fn initially(config: NetworkConfig) -> NetworkConfigWithOffset {
    NetworkConfigWithOffset { offset_ms: 0, network_config: config }
}

/// Conditions of an ordinary broadband connection.
pub open spec fn default_conditions() -> NetworkConfig {
    NetworkConfig { rate_kbps: None, loss_percent: None, delay_ms: Some(40u32) }
}

/// Conditions of a busy or mobile connection.
pub open spec fn moderate_conditions() -> NetworkConfig {
    NetworkConfig { rate_kbps: Some(1000u32), loss_percent: Some(2u8), delay_ms: Some(100u32) }
}

/// Conditions of a long-distance connection.
pub open spec fn international_conditions() -> NetworkConfig {
    NetworkConfig { rate_kbps: None, loss_percent: Some(3u8), delay_ms: Some(250u32) }
}

/// The setting in effect during a loss spike.
pub open spec fn spike() -> NetworkConfig {
    NetworkConfig { rate_kbps: None, loss_percent: Some(50u8), delay_ms: None }
}

/// Two-second loss spikes, ten and twenty seconds into the call.
pub open spec fn spiky_loss_timeline() -> Seq<NetworkConfigWithOffset> {
    seq![
        initially(unimpaired()),
        NetworkConfigWithOffset { offset_ms: 10_000, network_config: spike() },
        NetworkConfigWithOffset { offset_ms: 12_000, network_config: unimpaired() },
        NetworkConfigWithOffset { offset_ms: 20_000, network_config: spike() },
        NetworkConfigWithOffset { offset_ms: 22_000, network_config: unimpaired() },
    ]
}

impl NetworkConfig {
    /// The setting that impairs nothing.
    pub fn unimpaired() -> (r: NetworkConfig)
        ensures
            r == unimpaired(),
    {
        NetworkConfig { rate_kbps: None, loss_percent: None, delay_ms: None }
    }

    /// A bandwidth cap and nothing else.
    pub fn limited_to(rate_kbps: u32) -> (r: NetworkConfig)
        ensures
            r == (NetworkConfig { rate_kbps: Some(rate_kbps), ..unimpaired() }),
    {
        NetworkConfig { rate_kbps: Some(rate_kbps), loss_percent: None, delay_ms: None }
    }

    /// A packet loss and nothing else.
    pub fn losing(loss_percent: u8) -> (r: NetworkConfig)
        ensures
            r == (NetworkConfig { loss_percent: Some(loss_percent), ..unimpaired() }),
    {
        NetworkConfig { rate_kbps: None, loss_percent: Some(loss_percent), delay_ms: None }
    }

    /// Whether this setting impairs nothing.
    pub fn is_unimpaired(&self) -> (r: bool)
        ensures
            r == (*self == unimpaired()),
    {
        self.rate_kbps.is_none() && self.loss_percent.is_none() && self.delay_ms.is_none()
    }
}

impl Default for NetworkConfig {
    fn default() -> (r: NetworkConfig)
        ensures
            r == unimpaired(),
    {
        NetworkConfig::unimpaired()
    }
}

impl NetworkConfigWithOffset {
    /// The entry that puts `network_config` in effect `seconds` into the call.
    pub fn at_secs(seconds: u32, network_config: NetworkConfig) -> (r: NetworkConfigWithOffset)
        ensures
            r.offset_ms == seconds * 1000,
            r.network_config == network_config,
    {
        let s: u64 = seconds as u64;
        NetworkConfigWithOffset { offset_ms: s * 1000, network_config }
    }
}

impl NetworkProfile {
    /// The canonical name of the profile, which identifies it in results and charts.
    pub open spec fn spec_label(self) -> Seq<char> {
        match self {
            NetworkProfile::NoEmulation => "none"@,
            NetworkProfile::Default => "default"@,
            NetworkProfile::Moderate => "moderate"@,
            NetworkProfile::International => "international"@,
            NetworkProfile::SpikyLoss => "spiky_loss"@,
            NetworkProfile::LimitedBandwidth(rate) => "limited_bandwidth_"@ + decimal(rate as nat),
            NetworkProfile::SimpleLoss(loss) => "simple_loss_"@ + decimal(loss as nat),
            NetworkProfile::Custom(label, _) => label@,
        }
    }

    /// The timeline the profile stands for, or the reason it stands for none.
    ///
    /// A custom profile is taken as written, provided it starts with the initial state
    /// of the call and its offsets strictly increase.
    pub open spec fn spec_resolve(self) -> Result<Seq<NetworkConfigWithOffset>, ConfigurationError> {
        match self {
            NetworkProfile::NoEmulation => Ok(Seq::empty()),
            NetworkProfile::Default => Ok(seq![initially(default_conditions())]),
            NetworkProfile::Moderate => Ok(seq![initially(moderate_conditions())]),
            NetworkProfile::International => Ok(seq![initially(international_conditions())]),
            NetworkProfile::SpikyLoss => Ok(spiky_loss_timeline()),
            NetworkProfile::LimitedBandwidth(rate) => Ok(
                seq![initially(NetworkConfig { rate_kbps: Some(rate), ..unimpaired() })],
            ),
            NetworkProfile::SimpleLoss(loss) => Ok(
                seq![initially(NetworkConfig { loss_percent: Some(loss), ..unimpaired() })],
            ),
            NetworkProfile::Custom(_, entries) => if entries@.len() == 0 {
                Err(ConfigurationError::EmptyCustomProfile)
            } else if entries@[0].offset_ms != 0 {
                Err(ConfigurationError::MissingInitialState)
            } else if !strictly_increasing(entries@) {
                Err(ConfigurationError::OffsetsNotIncreasing)
            } else {
                Ok(entries@)
            },
        }
    }

    /// The canonical name of the profile.
    pub fn label(&self) -> (r: String)
        ensures
            r@ == self.spec_label(),
    {
        match self {
            NetworkProfile::NoEmulation => String::from_str("none"),
            NetworkProfile::Default => String::from_str("default"),
            NetworkProfile::Moderate => String::from_str("moderate"),
            NetworkProfile::International => String::from_str("international"),
            NetworkProfile::SpikyLoss => String::from_str("spiky_loss"),
            NetworkProfile::LimitedBandwidth(rate) => {
                let mut s = String::from_str("limited_bandwidth_");
                let digits = decimal_string(*rate as u64);
                s.append(digits.as_str());
                s
            },
            NetworkProfile::SimpleLoss(loss) => {
                let mut s = String::from_str("simple_loss_");
                let digits = decimal_string(*loss as u64);
                s.append(digits.as_str());
                s
            },
            NetworkProfile::Custom(label, _) => label.clone(),
        }
    }

    /// Resolves the profile to its timeline, rejecting a custom profile that is empty,
    /// does not start at offset zero, or whose offsets do not strictly increase.
    pub fn resolve(&self) -> (r: Result<Vec<NetworkConfigWithOffset>, ConfigurationError>)
        ensures
            match r {
                Ok(t) => self.spec_resolve() == Ok::<
                    Seq<NetworkConfigWithOffset>,
                    ConfigurationError,
                >(t@),
                Err(e) => self.spec_resolve() == Err::<
                    Seq<NetworkConfigWithOffset>,
                    ConfigurationError,
                >(e),
            },
    {
        let mut t: Vec<NetworkConfigWithOffset> = Vec::new();
        match self {
            NetworkProfile::NoEmulation => {},
            NetworkProfile::Default => {
                t.push(
                    NetworkConfigWithOffset {
                        offset_ms: 0,
                        network_config: NetworkConfig {
                            rate_kbps: None,
                            loss_percent: None,
                            delay_ms: Some(40),
                        },
                    },
                );
            },
            NetworkProfile::Moderate => {
                t.push(
                    NetworkConfigWithOffset {
                        offset_ms: 0,
                        network_config: NetworkConfig {
                            rate_kbps: Some(1000),
                            loss_percent: Some(2),
                            delay_ms: Some(100),
                        },
                    },
                );
            },
            NetworkProfile::International => {
                t.push(
                    NetworkConfigWithOffset {
                        offset_ms: 0,
                        network_config: NetworkConfig {
                            rate_kbps: None,
                            loss_percent: Some(3),
                            delay_ms: Some(250),
                        },
                    },
                );
            },
            NetworkProfile::SpikyLoss => {
                let calm = NetworkConfig::unimpaired();
                let spike = NetworkConfig::losing(50);
                t.push(NetworkConfigWithOffset { offset_ms: 0, network_config: calm });
                t.push(NetworkConfigWithOffset { offset_ms: 10_000, network_config: spike });
                t.push(NetworkConfigWithOffset { offset_ms: 12_000, network_config: calm });
                t.push(NetworkConfigWithOffset { offset_ms: 20_000, network_config: spike });
                t.push(NetworkConfigWithOffset { offset_ms: 22_000, network_config: calm });
                assert(t@ =~= spiky_loss_timeline());
            },
            NetworkProfile::LimitedBandwidth(rate) => {
                t.push(
                    NetworkConfigWithOffset {
                        offset_ms: 0,
                        network_config: NetworkConfig::limited_to(*rate),
                    },
                );
                assert(t@ =~= seq![
                    initially(NetworkConfig { rate_kbps: Some(*rate), ..unimpaired() }),
                ]);
            },
            NetworkProfile::SimpleLoss(loss) => {
                t.push(
                    NetworkConfigWithOffset {
                        offset_ms: 0,
                        network_config: NetworkConfig::losing(*loss),
                    },
                );
                assert(t@ =~= seq![
                    initially(NetworkConfig { loss_percent: Some(*loss), ..unimpaired() }),
                ]);
            },
            NetworkProfile::Custom(_, entries) => {
                if entries.len() == 0 {
                    return Err(ConfigurationError::EmptyCustomProfile);
                }
                if entries[0].offset_ms != 0 {
                    return Err(ConfigurationError::MissingInitialState);
                }
                t.push(entries[0]);
                let mut i: usize = 1;
                while i < entries.len()
                    invariant
                        1 <= i <= entries.len(),
                        *self matches NetworkProfile::Custom(_, written) && written == entries,
                        entries@[0].offset_ms == 0,
                        t@ == entries@.take(i as int),
                        strictly_increasing(entries@.take(i as int)),
                    decreases entries.len() - i,
                {
                    if entries[i - 1].offset_ms >= entries[i].offset_ms {
                        return Err(ConfigurationError::OffsetsNotIncreasing);
                    }
                    t.push(entries[i]);
                    proof {
                        let before = entries@.take(i as int);
                        let after = entries@.take(i + 1);
                        assert forall|a: int, b: int| 0 <= a < b < after.len() implies after[a].offset_ms
                            < after[b].offset_ms by {
                            if b >= i && a < i - 1 {
                                assert(before[a].offset_ms < before[i - 1].offset_ms);
                            }
                        }
                    }
                    i = i + 1;
                }
                assert(entries@.take(i as int) =~= entries@);
            },
        }
        Ok(t)
    }
}

/// The entries of `full` that take effect before the call ends, in order.
pub fn clamp_to(full: &Vec<NetworkConfigWithOffset>, call_duration_ms: u64) -> (t: Vec<
    NetworkConfigWithOffset,
>)
    ensures
        t@ == clamp(full@, call_duration_ms),
{
    let mut t: Vec<NetworkConfigWithOffset> = Vec::new();
    let mut i: usize = 0;
    proof {
        reveal(Seq::filter);
    }
    while i < full.len()
        invariant
            i <= full.len(),
            t@ == clamp(full@.take(i as int), call_duration_ms),
        decreases full.len() - i,
    {
        proof {
            reveal(Seq::filter);
            assert(full@.take(i + 1).drop_last() =~= full@.take(i as int));
        }
        if full[i].offset_ms < call_duration_ms {
            t.push(full[i]);
        }
        i = i + 1;
    }
    assert(full@.take(i as int) =~= full@);
    t
}

/// Resolves `profile` and keeps the entries that take effect before the call ends.
///
/// Fails exactly when the profile does not resolve, with the same error.
pub fn schedule(profile: &NetworkProfile, call_duration_ms: u64) -> (r: Result<
    Vec<NetworkConfigWithOffset>,
    ConfigurationError,
>)
    ensures
        match r {
            Ok(t) => profile.spec_resolve() matches Ok(full) && t@ == clamp(full, call_duration_ms),
            Err(e) => profile.spec_resolve() == Err::<Seq<NetworkConfigWithOffset>, ConfigurationError>(
                e,
            ),
        },
{
    match profile.resolve() {
        Err(e) => Err(e),
        Ok(full) => Ok(clamp_to(&full, call_duration_ms)),
    }
}

/// A resolved timeline is ordered, and unless nothing is emulated it begins with the
/// initial state of the call.
pub proof fn lemma_resolved_timeline(profile: NetworkProfile)
    ensures
        profile.spec_resolve() matches Ok(t) ==> {
            &&& strictly_increasing(t)
            &&& (profile is NoEmulation <==> t.len() == 0)
            &&& t.len() > 0 ==> t[0].offset_ms == 0
        },
{
}

/// Clamping keeps the leading entries of an ordered timeline, in order, and drops the
/// rest: the result is the longest prefix that takes effect before the call ends.
pub proof fn lemma_clamp_is_prefix(t: Seq<NetworkConfigWithOffset>, call_duration_ms: u64)
    requires
        strictly_increasing(t),
    ensures
        clamp(t, call_duration_ms).len() <= t.len(),
        clamp(t, call_duration_ms) == t.take(clamp(t, call_duration_ms).len() as int),
        forall|i: int|
            0 <= i < t.len() ==> (i < clamp(t, call_duration_ms).len() <==> t[i].offset_ms
                < call_duration_ms),
        strictly_increasing(clamp(t, call_duration_ms)),
    decreases t.len(),
{
    reveal(Seq::filter);
    if t.len() > 0 {
        let head = t.drop_last();
        lemma_clamp_is_prefix(head, call_duration_ms);
        let kept_all = clamp(t, call_duration_ms);
        assert forall|i: int| 0 <= i < t.len() implies (i < kept_all.len() <==> t[i].offset_ms
            < call_duration_ms) by {
            if i < head.len() {
                assert(head[i] == t[i]);
            }
        }
    }
}

/// A schedule is ordered. It is empty exactly when nothing is emulated or the call has
/// no duration, and otherwise begins with the initial state of the call.
pub proof fn lemma_schedule_starts_at_zero(profile: NetworkProfile, call_duration_ms: u64)
    ensures
        profile.spec_resolve() matches Ok(full) ==> {
            let t = clamp(full, call_duration_ms);
            &&& strictly_increasing(t)
            &&& (t.len() == 0 <==> profile is NoEmulation || call_duration_ms == 0)
            &&& t.len() > 0 ==> t[0].offset_ms == 0
        },
{
    if let Ok(full) = profile.spec_resolve() {
        lemma_resolved_timeline(profile);
        lemma_clamp_is_prefix(full, call_duration_ms);
    }
}

/// The label of a profile tells it apart from every other: two profiles with the same
/// label are the same profile, unless one of them is a custom profile, whose label is
/// whatever it was given.
pub proof fn lemma_label_is_canonical(p: NetworkProfile, q: NetworkProfile)
    requires
        p !is Custom,
        q !is Custom,
        p.spec_label() == q.spec_label(),
    ensures
        p == q,
{
    reveal_strlit("none");
    reveal_strlit("default");
    reveal_strlit("moderate");
    reveal_strlit("international");
    reveal_strlit("spiky_loss");
    reveal_strlit("limited_bandwidth_");
    reveal_strlit("simple_loss_");
    let limited = "limited_bandwidth_"@;
    let simple = "simple_loss_"@;
    let a = p.spec_label();
    let b = q.spec_label();
    assert(a[0] == b[0]);
    match (p, q) {
        (NetworkProfile::LimitedBandwidth(x), NetworkProfile::LimitedBandwidth(y)) => {
            lemma_same_prefix(limited, decimal(x as nat), decimal(y as nat));
            lemma_decimal_is_injective(x as nat, y as nat);
        },
        (NetworkProfile::SimpleLoss(x), NetworkProfile::SimpleLoss(y)) => {
            lemma_same_prefix(simple, decimal(x as nat), decimal(y as nat));
            lemma_decimal_is_injective(x as nat, y as nat);
        },
        _ => {
            if let NetworkProfile::LimitedBandwidth(x) = p {
                lemma_decimal_length(x as nat);
            }
            if let NetworkProfile::LimitedBandwidth(y) = q {
                lemma_decimal_length(y as nat);
            }
            if let NetworkProfile::SimpleLoss(x) = p {
                lemma_decimal_length(x as nat);
                assert(a[1] == simple[1]);
            }
            if let NetworkProfile::SimpleLoss(y) = q {
                lemma_decimal_length(y as nat);
                assert(b[1] == simple[1]);
            }
        },
    }
}

} // verus!
