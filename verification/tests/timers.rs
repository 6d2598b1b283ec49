use std::sync::Mutex;
use std::time::{Duration, Instant};

use talos::alarm::{Alarm, State, ZoneKind, ZoneStatus};
use talos::timers::{check, entry_delay_from_env, exit_delay_from_env, StateTracker};

const DELAY: Duration = Duration::from_secs(30);

/// Nanoseconds from `base` to `t` on the monotonic clock.
fn nanos(base: Instant, t: Instant) -> u128 {
    t.duration_since(base).as_nanos()
}

fn run_check(alarm: &Mutex<Alarm>, tracker: &mut StateTracker, base: Instant, now: Instant) {
    let mut guard = alarm.lock().unwrap();
    check(
        &mut guard,
        tracker,
        DELAY.as_nanos(),
        DELAY.as_nanos(),
        nanos(base, now),
    );
}

#[test]
fn first_observation_takes_no_action_even_if_now_is_far_past() {
    let base = Instant::now();
    let alarm = Mutex::new(Alarm::new());
    alarm.lock().unwrap().arm().unwrap();
    let mut tracker = StateTracker::new();

    let far_future = Instant::now() + Duration::from_secs(10_000);
    run_check(&alarm, &mut tracker, base, far_future);

    assert_eq!(alarm.lock().unwrap().state(), State::ExitDelay);
}

#[test]
fn exit_delay_completes_after_configured_duration_with_no_zones() {
    let base = Instant::now();
    let alarm = Mutex::new(Alarm::new());
    alarm.lock().unwrap().arm().unwrap();
    let mut tracker = StateTracker::new();
    let start = Instant::now();

    run_check(&alarm, &mut tracker, base, start);
    assert_eq!(alarm.lock().unwrap().state(), State::ExitDelay);

    run_check(&alarm, &mut tracker, base, start + DELAY);
    assert_eq!(alarm.lock().unwrap().state(), State::Armed);
}

#[test]
fn exit_delay_waits_for_zone_clear_before_completing() {
    let base = Instant::now();
    let alarm = Mutex::new(Alarm::new());
    {
        let mut guard = alarm.lock().unwrap();
        guard.add_zone(1, ZoneKind::Instant).unwrap();
        guard.arm().unwrap();
        guard.report_zone_event(1, ZoneStatus::Triggered).unwrap();
    }
    let mut tracker = StateTracker::new();
    let start = Instant::now();

    run_check(&alarm, &mut tracker, base, start);
    run_check(&alarm, &mut tracker, base, start + DELAY);
    assert_eq!(alarm.lock().unwrap().state(), State::ExitDelay);

    alarm
        .lock()
        .unwrap()
        .report_zone_event(1, ZoneStatus::Clear)
        .unwrap();

    run_check(
        &alarm,
        &mut tracker,
        base,
        start + DELAY + Duration::from_secs(1),
    );
    assert_eq!(alarm.lock().unwrap().state(), State::Armed);
}

#[test]
fn entry_delay_completes_after_configured_duration() {
    let base = Instant::now();
    let alarm = Mutex::new(Alarm::new());
    {
        let mut guard = alarm.lock().unwrap();
        guard.add_zone(1, ZoneKind::Delay).unwrap();
        guard.arm().unwrap();
        guard.complete_exit_delay().unwrap();
        guard.report_zone_event(1, ZoneStatus::Triggered).unwrap();
    }
    assert_eq!(alarm.lock().unwrap().state(), State::EntryDelay);

    let mut tracker = StateTracker::new();
    let start = Instant::now();

    run_check(&alarm, &mut tracker, base, start);
    assert_eq!(alarm.lock().unwrap().state(), State::EntryDelay);

    run_check(&alarm, &mut tracker, base, start + DELAY);
    assert_eq!(alarm.lock().unwrap().state(), State::Triggered);
}

// Further timer properties.

#[test]
fn delay_just_short_of_its_length_does_not_complete() {
    let mut alarm = Alarm::new();
    alarm.arm().unwrap();
    let mut tracker = StateTracker::new();
    check(&mut alarm, &mut tracker, 30, 30, 100);
    check(&mut alarm, &mut tracker, 30, 30, 129);
    assert_eq!(alarm.state(), State::ExitDelay);
    check(&mut alarm, &mut tracker, 30, 30, 130);
    assert_eq!(alarm.state(), State::Armed);
}

#[test]
fn zero_delay_completes_on_first_check() {
    let mut alarm = Alarm::new();
    alarm.arm().unwrap();
    let mut tracker = StateTracker::new();
    check(&mut alarm, &mut tracker, 0, 0, 5);
    assert_eq!(alarm.state(), State::Armed);
}

#[test]
fn delay_values_from_environment() {
    assert_eq!(exit_delay_from_env(None), 30);
    assert_eq!(exit_delay_from_env(Some("2")), 2);
    assert_eq!(entry_delay_from_env(Some("+45")), 45);
    assert_eq!(entry_delay_from_env(Some("-1")), 30);
    assert_eq!(entry_delay_from_env(Some("")), 30);
    assert_eq!(exit_delay_from_env(Some("18446744073709551615")), u64::MAX);
    assert_eq!(exit_delay_from_env(Some("18446744073709551616")), 30);
    assert_eq!(exit_delay_from_env(Some(" 5")), 30);
}
