//! The timer that applies a timeline while a call lasts.
//!
//! The timer does not sleep and touches no interface. Whoever drives it tells it how
//! long the call has lasted and is told what to do: put a setting in effect, sleep,
//! or nothing more.

use vstd::prelude::*;
use crate::error::ConfigurationError;
use crate::network::{clamp, schedule, NetworkConfig, NetworkConfigWithOffset, NetworkProfile};

verus! {

/// What the driver of a timer is to do.
#[derive(Clone, Copy, Debug, PartialEq, Eq, Structural)]
pub enum TimerAction {
    /// Put `config` in effect in place of whatever was in effect: a dimension that
    /// `config` leaves unset is unimpaired from now on.
    Apply { config: NetworkConfig },
    /// Sleep for `ms` milliseconds, then ask again.
    Sleep { ms: u64 },
    /// Nothing is left to apply, or the timer was cancelled.
    Done,
}

/// The state of a timer.
#[verifier::ext_equal]
pub struct TimerView {
    pub timeline: Seq<NetworkConfigWithOffset>,
    /// The number of entries that have been applied.
    pub next: int,
    pub cancelled: bool,
}

/// What holds of a timer at all times.
pub open spec fn inv(v: TimerView) -> bool {
    0 <= v.next <= v.timeline.len()
}

/// What a timer in state `v` asks for when the call has lasted `elapsed_ms`: the next
/// entry if its time has come, a sleep until then if it has not.
pub open spec fn due(v: TimerView, elapsed_ms: u64) -> TimerAction {
    if v.cancelled || v.next >= v.timeline.len() {
        TimerAction::Done
    } else if v.timeline[v.next].offset_ms <= elapsed_ms {
        TimerAction::Apply { config: v.timeline[v.next].network_config }
    } else {
        TimerAction::Sleep { ms: (v.timeline[v.next].offset_ms - elapsed_ms) as u64 }
    }
}

/// The timer after it was asked at `elapsed_ms`: one entry further if it asked to
/// apply one, and else as it was.
pub open spec fn polled(v: TimerView, elapsed_ms: u64) -> TimerView {
    if due(v, elapsed_ms) is Apply {
        TimerView { next: v.next + 1, ..v }
    } else {
        v
    }
}

/// The timer after it was asked at each of `times` in turn.
pub open spec fn polled_at(v: TimerView, times: Seq<u64>) -> TimerView
    decreases times.len(),
{
    if times.len() == 0 {
        v
    } else {
        polled(polled_at(v, times.drop_last()), times.last())
    }
}

/// The settings that the timer asked to apply when it was asked at each of `times` in
/// turn, in the order in which it asked.
pub open spec fn applied_at(v: TimerView, times: Seq<u64>) -> Seq<NetworkConfig>
    decreases times.len(),
{
    if times.len() == 0 {
        Seq::empty()
    } else {
        let earlier = applied_at(v, times.drop_last());
        match due(polled_at(v, times.drop_last()), times.last()) {
            TimerAction::Apply { config } => earlier.push(config),
            _ => earlier,
        }
    }
}

/// The settings of the entries of `timeline` from position `from` up to `to`.
pub open spec fn settings(timeline: Seq<NetworkConfigWithOffset>, from: int, to: int) -> Seq<
    NetworkConfig,
> {
    Seq::new((to - from) as nat, |k: int| timeline[from + k].network_config)
}

/// Applies a timeline entry by entry as the call goes on.
pub struct ImpairmentTimer {
    timeline: Vec<NetworkConfigWithOffset>,
    next: usize,
    cancelled: bool,
}

impl View for ImpairmentTimer {
    type V = TimerView;

    closed spec fn view(&self) -> TimerView {
        TimerView { timeline: self.timeline@, next: self.next as int, cancelled: self.cancelled }
    }
}

impl ImpairmentTimer {
    /// A timer that has applied nothing of `timeline` yet.
    pub fn new(timeline: Vec<NetworkConfigWithOffset>) -> (r: ImpairmentTimer)
        ensures
            inv(r@),
            r@ == (TimerView { timeline: timeline@, next: 0, cancelled: false }),
    {
        ImpairmentTimer { timeline, next: 0, cancelled: false }
    }

    /// A timer for the schedule of `profile` over a call of `call_duration_ms`. Fails
    /// exactly when the profile does not resolve, with the same error.
    pub fn start(profile: &NetworkProfile, call_duration_ms: u64) -> (r: Result<
        ImpairmentTimer,
        ConfigurationError,
    >)
        ensures
            match r {
                Ok(timer) => {
                    &&& inv(timer@)
                    &&& profile.spec_resolve() matches Ok(full)
                    &&& timer@ == (TimerView {
                        timeline: clamp(full, call_duration_ms),
                        next: 0,
                        cancelled: false,
                    })
                },
                Err(e) => profile.spec_resolve() == Err::<
                    Seq<NetworkConfigWithOffset>,
                    ConfigurationError,
                >(e),
            },
    {
        match schedule(profile, call_duration_ms) {
            Ok(timeline) => Ok(ImpairmentTimer::new(timeline)),
            Err(e) => Err(e),
        }
    }

    /// What is to be done now that the call has lasted `elapsed_ms`. An entry that is
    /// handed out to be applied counts as applied.
    pub fn poll(&mut self, elapsed_ms: u64) -> (r: TimerAction)
        requires
            inv(old(self)@),
        ensures
            inv(final(self)@),
            r == due(old(self)@, elapsed_ms),
            final(self)@ == polled(old(self)@, elapsed_ms),
    {
        if self.cancelled || self.next >= self.timeline.len() {
            return TimerAction::Done;
        }
        let entry = self.timeline[self.next];
        if entry.offset_ms <= elapsed_ms {
            self.next = self.next + 1;
            TimerAction::Apply { config: entry.network_config }
        } else {
            TimerAction::Sleep { ms: entry.offset_ms - elapsed_ms }
        }
    }

    /// Cancels the timer: from now on it asks for nothing.
    pub fn cancel(&mut self)
        requires
            inv(old(self)@),
        ensures
            inv(final(self)@),
            final(self)@ == (TimerView { cancelled: true, ..old(self)@ }),
    {
        self.cancelled = true;
    }

    /// The number of entries that have been applied.
    pub fn applied(&self) -> (r: usize)
        requires
            inv(self@),
        ensures
            r == self@.next,
    {
        self.next
    }

    /// The number of entries of the timeline.
    pub fn len(&self) -> (r: usize)
        ensures
            r == self@.timeline.len(),
    {
        self.timeline.len()
    }
}

/// Whenever and however often a timer is asked, what it has applied is a stretch of
/// its timeline without a gap, in the order of the timeline, beginning where it
/// stood: no entry is skipped and none is applied before an earlier one. No entry is
/// applied twice.
pub proof fn lemma_applies_in_order(v: TimerView, times: Seq<u64>)
    requires
        inv(v),
    ensures
        inv(polled_at(v, times)),
        polled_at(v, times).timeline == v.timeline,
        polled_at(v, times).cancelled == v.cancelled,
        v.next <= polled_at(v, times).next,
        applied_at(v, times) == settings(v.timeline, v.next, polled_at(v, times).next),
    decreases times.len(),
{
    if times.len() > 0 {
        lemma_applies_in_order(v, times.drop_last());
    }
}

/// No entry is applied before its time, and an entry whose time has come is applied
/// by the poll that finds it next.
pub proof fn lemma_applies_on_time(v: TimerView, elapsed_ms: u64)
    requires
        inv(v),
        !v.cancelled,
        v.next < v.timeline.len(),
    ensures
        due(v, elapsed_ms) is Apply <==> v.timeline[v.next].offset_ms <= elapsed_ms,
        due(v, elapsed_ms) matches TimerAction::Sleep { ms } ==> elapsed_ms + ms
            == v.timeline[v.next].offset_ms,
{
}

/// A timer that was cancelled applies nothing, whenever it is asked.
pub proof fn lemma_cancelled_applies_nothing(v: TimerView, times: Seq<u64>)
    requires
        inv(v),
        v.cancelled,
    ensures
        polled_at(v, times) == v,
        applied_at(v, times) == Seq::<NetworkConfig>::empty(),
    decreases times.len(),
{
    if times.len() > 0 {
        lemma_cancelled_applies_nothing(v, times.drop_last());
    }
}

/// A timer that is not cancelled and is asked, once the time of every entry has come,
/// as often as entries are left, has applied its whole timeline: with what it applied
/// before, every entry once.
pub proof fn lemma_applies_everything(v: TimerView, times: Seq<u64>)
    requires
        inv(v),
        !v.cancelled,
        times.len() >= v.timeline.len() - v.next,
        forall|k: int, i: int|
            0 <= k < times.len() && 0 <= i < v.timeline.len() ==> (
            #[trigger] v.timeline[i]).offset_ms <= #[trigger] times[k],
    ensures
        polled_at(v, times).next == v.timeline.len(),
        applied_at(v, times) == settings(v.timeline, v.next, v.timeline.len() as int),
{
    lemma_applies_in_order(v, times);
    lemma_polls_advance(v, times);
}

proof fn lemma_polls_advance(v: TimerView, times: Seq<u64>)
    requires
        inv(v),
        !v.cancelled,
        forall|k: int, i: int|
            0 <= k < times.len() && 0 <= i < v.timeline.len() ==> (
            #[trigger] v.timeline[i]).offset_ms <= #[trigger] times[k],
    ensures
        polled_at(v, times).next == if v.next + times.len() <= v.timeline.len() {
            v.next + times.len()
        } else {
            v.timeline.len() as int
        },
    decreases times.len(),
{
    if times.len() > 0 {
        let head = times.drop_last();
        lemma_polls_advance(v, head);
        lemma_applies_in_order(v, head);
    }
}

} // verus!
