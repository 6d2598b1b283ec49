//! The exit/entry delay timeouts: how long each delay lasts, and the
//! periodic check that completes a delay once it has run its course.
//!
//! Time is a monotonic clock reading in nanoseconds, taken by the caller, so
//! that the check can be driven (and tested) without sleeping.

use crate::alarm::{after_entry_delay, after_exit_delay, Alarm, AlarmModel, State};
use crate::auth::lemma_decimal_digits;
use crate::text::{decimal, parse_u64, parse_u64_str};
use vstd::prelude::*;

verus! {

/// The delay, in seconds, when none is configured or the configured value
/// is not a number.
pub const DEFAULT_DELAY_SECS: u64 = 30u64;

/// The delay a configuration value gives: the value parsed as a whole
/// number of seconds, or the default when it is absent or unparsable.
pub open spec fn delay_secs_of(value: Option<Seq<char>>) -> u64 {
    match value {
        Some(v) => match parse_u64(v) {
            Some(secs) => secs,
            None => DEFAULT_DELAY_SECS,
        },
        None => DEFAULT_DELAY_SECS,
    }
}

fn duration_from_env(value: Option<&str>) -> (secs: u64)
    ensures
        secs == delay_secs_of(match value {
            Some(v) => Some(v@),
            None => None,
        }),
{
    match value {
        Some(v) => match parse_u64_str(v) {
            Some(secs) => secs,
            None => DEFAULT_DELAY_SECS,
        },
        None => DEFAULT_DELAY_SECS,
    }
}

/// The exit delay in seconds, from the value of `TALOS_EXIT_DELAY_SECS`
/// (`None` when the variable is unset).
pub fn exit_delay_from_env(value: Option<&str>) -> (secs: u64)
    ensures
        secs == delay_secs_of(match value {
            Some(v) => Some(v@),
            None => None,
        }),
{
    duration_from_env(value)
}

/// The entry delay in seconds, from the value of `TALOS_ENTRY_DELAY_SECS`
/// (`None` when the variable is unset).
pub fn entry_delay_from_env(value: Option<&str>) -> (secs: u64)
    ensures
        secs == delay_secs_of(match value {
            Some(v) => Some(v@),
            None => None,
        }),
{
    duration_from_env(value)
}

/// What the tracker remembers: the last state it saw and when it first saw
/// it (nanoseconds).
pub type TrackerModel = (Option<State>, Option<u128>);

/// Tracks since when the alarm has been in its current state.
pub struct StateTracker {
    state: Option<State>,
    observed_at: Option<u128>,
}

impl View for StateTracker {
    type V = TrackerModel;

    closed spec fn view(&self) -> TrackerModel {
        (self.state, self.observed_at)
    }
}

/// A tracker that has seen a state knows when it first saw it.
pub open spec fn tracker_wf(t: TrackerModel) -> bool {
    t.0 is Some <==> t.1 is Some
}

/// The time from `since` to `now`, or zero if `now` is earlier.
pub open spec fn elapsed(now: u128, since: u128) -> nat {
    if now >= since {
        (now - since) as nat
    } else {
        0
    }
}

/// The tracker after observing `state` at `now`: a state it had not seen
/// last time restarts the clock.
pub open spec fn tracker_after(t: TrackerModel, state: State, now: u128) -> TrackerModel {
    if t.0 != Some(state) {
        (Some(state), Some(now))
    } else {
        t
    }
}

/// The alarm after one check at `now`: a delay whose state has lasted at
/// least its duration is completed.
pub open spec fn alarm_after_check(
    v: AlarmModel,
    t: TrackerModel,
    exit_delay: u128,
    entry_delay: u128,
    now: u128,
) -> AlarmModel {
    let since = tracker_after(t, v.0, now).1->0;
    if v.0 == State::ExitDelay && elapsed(now, since) >= exit_delay {
        after_exit_delay(v)
    } else if v.0 == State::EntryDelay && elapsed(now, since) >= entry_delay {
        after_entry_delay(v)
    } else {
        v
    }
}

impl StateTracker {
    pub closed spec fn wf(&self) -> bool {
        tracker_wf(self@)
    }

    /// A tracker that has seen nothing yet.
    pub fn new() -> (tracker: Self)
        ensures
            tracker.wf(),
            tracker@ == (None::<State>, None::<u128>),
    {
        StateTracker { state: None, observed_at: None }
    }
}

/// Advances exit/entry delay timeouts by one check. `now` (nanoseconds on a
/// monotonic clock) is taken as a parameter rather than read internally so
/// that elapsed time can be simulated.
pub fn check(
    alarm: &mut Alarm,
    tracker: &mut StateTracker,
    exit_delay: u128,
    entry_delay: u128,
    now: u128,
)
    requires
        old(alarm).wf(),
        old(tracker).wf(),
    ensures
        final(alarm).wf(),
        final(tracker).wf(),
        final(tracker)@ == tracker_after(old(tracker)@, old(alarm)@.0, now),
        final(alarm)@ == alarm_after_check(old(alarm)@, old(tracker)@, exit_delay, entry_delay, now),
{
    let state = alarm.state();
    let seen = match tracker.state {
        Some(s) => s == state,
        None => false,
    };
    if !seen {
        tracker.state = Some(state);
        tracker.observed_at = Some(now);
    }
    let observed_at = match tracker.observed_at {
        Some(t) => t,
        None => now,
    };
    let elapsed_time: u128 = if now >= observed_at {
        now - observed_at
    } else {
        0
    };
    match state {
        State::ExitDelay => {
            if elapsed_time >= exit_delay {
                let _ = alarm.complete_exit_delay();
            }
        },
        State::EntryDelay => {
            if elapsed_time >= entry_delay {
                let _ = alarm.complete_entry_delay();
            }
        },
        _ => {},
    }
}

/// The first check after the alarm changes state never completes a delay
/// of positive length, however late it runs.
pub proof fn law_first_observation_takes_no_action(
    v: AlarmModel,
    t: TrackerModel,
    exit_delay: u128,
    entry_delay: u128,
    now: u128,
)
    requires
        t.0 != Some(v.0),
        exit_delay > 0,
        entry_delay > 0,
    ensures
        alarm_after_check(v, t, exit_delay, entry_delay, now) == v,
        tracker_after(t, v.0, now) == (Some(v.0), Some(now)),
{
}

/// A delay is completed only once the state has lasted, since the tracker
/// first saw it, at least the delay's length; on the first sight of a state
/// that means only a delay of length zero.
pub proof fn law_delay_completes_only_after_its_length(
    v: AlarmModel,
    t: TrackerModel,
    exit_delay: u128,
    entry_delay: u128,
    now: u128,
)
    requires
        tracker_wf(t),
        alarm_after_check(v, t, exit_delay, entry_delay, now) != v,
    ensures
        v.0 == State::ExitDelay || v.0 == State::EntryDelay,
        v.0 == State::ExitDelay ==> elapsed(now, tracker_after(t, v.0, now).1->0) >= exit_delay,
        v.0 == State::EntryDelay ==> elapsed(now, tracker_after(t, v.0, now).1->0) >= entry_delay,
        t.0 != Some(v.0) ==> (v.0 == State::ExitDelay ==> exit_delay == 0) && (v.0
            == State::EntryDelay ==> entry_delay == 0),
{
}

/// Checks never register or change zones.
pub proof fn law_check_keeps_zones(
    v: AlarmModel,
    t: TrackerModel,
    exit_delay: u128,
    entry_delay: u128,
    now: u128,
)
    ensures
        alarm_after_check(v, t, exit_delay, entry_delay, now).1 == v.1,
{
}

/// The tracker after a history of checks, each given as the state it
/// observed and its `now`, in order.
pub open spec fn tracker_after_history(t: TrackerModel, history: Seq<(State, u128)>) -> TrackerModel
    decreases history.len(),
{
    if history.len() == 0 {
        t
    } else {
        tracker_after(
            tracker_after_history(t, history.drop_last()),
            history.last().0,
            history.last().1,
        )
    }
}

/// The checks of `history` from index `k` on all observed `state`, and the
/// check before them observed another state (or, when `k` is 0, the tracker
/// had not seen `state` last).
pub open spec fn observed_since(
    t: TrackerModel,
    history: Seq<(State, u128)>,
    k: int,
    state: State,
) -> bool {
    &&& 0 <= k < history.len()
    &&& forall|j: int| k <= j < history.len() ==> #[trigger] history[j].0 == state
    &&& if k == 0 {
        t.0 != Some(state)
    } else {
        history[k - 1].0 != state
    }
}

proof fn lemma_tracker_since_first_observation(
    t: TrackerModel,
    history: Seq<(State, u128)>,
    k: int,
    state: State,
    n: int,
)
    requires
        observed_since(t, history, k, state),
        k < n <= history.len(),
    ensures
        tracker_after_history(t, history.take(n)) == (Some(state), Some(history[k].1)),
    decreases n,
{
    let h = history.take(n);
    assert(h.drop_last() =~= history.take(n - 1));
    assert(h.last() == history[n - 1]);
    assert(history[n - 1].0 == state);
    assert(tracker_after_history(t, h) == tracker_after(
        tracker_after_history(t, history.take(n - 1)),
        state,
        history[n - 1].1,
    ));
    if n == k + 1 {
        if k > 0 {
            let p = history.take(k);
            assert(p.drop_last() =~= history.take(k - 1));
            assert(p.last() == history[k - 1]);
            assert(tracker_after_history(t, p).0 == Some(history[k - 1].0));
        } else {
            assert(history.take(0) =~= Seq::<(State, u128)>::empty());
        }
    } else {
        lemma_tracker_since_first_observation(t, history, k, state, n - 1);
    }
}

/// Over a history of checks, a delay is measured from the `now` of the first
/// of the consecutive checks that observed the alarm's current state, ending
/// with the last one: the last check completes the exit delay (as
/// `complete_exit_delay` does) or the entry delay exactly when that much
/// time has passed since then, and leaves the alarm unchanged otherwise, in
/// particular in every other state.
pub proof fn law_delay_measured_from_first_observation(
    v: AlarmModel,
    t: TrackerModel,
    history: Seq<(State, u128)>,
    k: int,
    exit_delay: u128,
    entry_delay: u128,
)
    requires
        observed_since(t, history, k, v.0),
    ensures
        tracker_after_history(t, history) == (Some(v.0), Some(history[k].1)),
        alarm_after_check(
            v,
            tracker_after_history(t, history.drop_last()),
            exit_delay,
            entry_delay,
            history.last().1,
        ) == (if v.0 == State::ExitDelay && elapsed(history.last().1, history[k].1) >= exit_delay {
            after_exit_delay(v)
        } else if v.0 == State::EntryDelay && elapsed(history.last().1, history[k].1)
            >= entry_delay {
            after_entry_delay(v)
        } else {
            v
        }),
{
    let n = history.len() as int;
    lemma_tracker_since_first_observation(t, history, k, v.0, n);
    assert(history.take(n) =~= history);
    assert(history.last() == history[n - 1]);
}

/// A configured delay that `str::parse::<u64>` accepts is used as it is,
/// zero included; the default stands only for an unset or unparsable value.
pub proof fn law_configured_delay_is_used(value: Seq<char>)
    ensures
        parse_u64(value) matches Some(n) ==> delay_secs_of(Some(value)) == n,
        parse_u64(value) is None ==> delay_secs_of(Some(value)) == DEFAULT_DELAY_SECS,
        delay_secs_of(None) == DEFAULT_DELAY_SECS,
{
}

/// Every whole number of seconds written in decimal is read back as that
/// delay.
pub proof fn law_decimal_delay_reads_back(n: u64)
    ensures
        delay_secs_of(Some(decimal(n as nat))) == n,
{
    lemma_decimal_digits(n as nat);
}

} // verus!
