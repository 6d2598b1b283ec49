use talos::alarm::{
    Alarm, RemoveZoneError, State, UnknownZoneError, WrongStateError, ZoneAlreadyExistsError,
    ZoneKind, ZoneStatus,
};

/// An armed alarm with no zones.
fn armed_alarm() -> Alarm {
    let mut alarm = Alarm::new();
    alarm.arm().unwrap();
    assert_eq!(alarm.complete_exit_delay(), Ok(true));
    assert_eq!(alarm.state(), State::Armed);
    alarm
}

/// An alarm in its entry delay, reached through a delay zone (id 1000) that
/// the tests below do not use.
fn entry_delay_alarm() -> Alarm {
    let mut alarm = armed_alarm();
    alarm.add_zone(1000, ZoneKind::Delay).unwrap();
    alarm.report_zone_event(1000, ZoneStatus::Triggered).unwrap();
    assert_eq!(alarm.state(), State::EntryDelay);
    alarm
}

/// A triggered alarm, reached through an instant zone (id 1000) that the
/// tests below do not use.
fn triggered_alarm() -> Alarm {
    let mut alarm = armed_alarm();
    alarm.add_zone(1000, ZoneKind::Instant).unwrap();
    alarm.report_zone_event(1000, ZoneStatus::Triggered).unwrap();
    assert_eq!(alarm.state(), State::Triggered);
    alarm
}

#[test]
fn initial_state_is_disarmed() {
    let alarm = Alarm::new();
    assert_eq!(alarm.state(), State::Disarmed);
}

#[test]
fn arm_from_disarmed_succeeds() {
    let mut alarm = Alarm::new();
    assert_eq!(alarm.arm(), Ok(()));
    assert_eq!(alarm.state(), State::ExitDelay);
}

#[test]
fn arm_from_exit_delay_fails_and_state_unchanged() {
    let mut alarm = Alarm::new();
    alarm.arm().unwrap();
    assert_eq!(alarm.state(), State::ExitDelay);

    let result = alarm.arm();
    assert_eq!(
        result,
        Err(WrongStateError {
            actual: State::ExitDelay,
            expected: State::Disarmed,
        })
    );
    assert_eq!(alarm.state(), State::ExitDelay);
}

#[test]
fn disarm_from_disarmed_stays_disarmed() {
    let mut alarm = Alarm::new();
    alarm.disarm();
    assert_eq!(alarm.state(), State::Disarmed);
}

#[test]
fn disarm_from_exit_delay_returns_to_disarmed() {
    let mut alarm = Alarm::new();
    alarm.arm().unwrap();
    assert_eq!(alarm.state(), State::ExitDelay);

    alarm.disarm();
    assert_eq!(alarm.state(), State::Disarmed);
}

#[test]
fn add_zone_twice_errors_and_leaves_state_unchanged() {
    let mut alarm = Alarm::new();
    alarm.add_zone(1, ZoneKind::Delay).unwrap();
    let result = alarm.add_zone(1, ZoneKind::Instant);
    assert_eq!(result, Err(ZoneAlreadyExistsError(1)));
    assert_eq!(alarm.zone_status(1), Some(ZoneStatus::Clear));
}

#[test]
fn report_event_unknown_zone_errors() {
    let mut alarm = Alarm::new();
    let result = alarm.report_zone_event(42, ZoneStatus::Triggered);
    assert_eq!(result, Err(UnknownZoneError(42)));
}

#[test]
fn new_zone_starts_clear() {
    let mut alarm = Alarm::new();
    alarm.add_zone(1, ZoneKind::Instant).unwrap();
    assert_eq!(alarm.zone_status(1), Some(ZoneStatus::Clear));
}

#[test]
fn zone_status_unknown_is_none() {
    let alarm = Alarm::new();
    assert_eq!(alarm.zone_status(99), None);
}

#[test]
fn armed_instant_triggered_sets_triggered() {
    let mut alarm = armed_alarm();
    alarm.add_zone(1, ZoneKind::Instant).unwrap();
    alarm.report_zone_event(1, ZoneStatus::Triggered).unwrap();
    assert_eq!(alarm.state(), State::Triggered);
}

#[test]
fn armed_delay_triggered_sets_entry_delay() {
    let mut alarm = armed_alarm();
    alarm.add_zone(1, ZoneKind::Delay).unwrap();
    alarm.report_zone_event(1, ZoneStatus::Triggered).unwrap();
    assert_eq!(alarm.state(), State::EntryDelay);
}

#[test]
fn entry_delay_instant_triggered_sets_triggered() {
    let mut alarm = entry_delay_alarm();
    alarm.add_zone(1, ZoneKind::Instant).unwrap();
    alarm.report_zone_event(1, ZoneStatus::Triggered).unwrap();
    assert_eq!(alarm.state(), State::Triggered);
}

#[test]
fn entry_delay_delay_triggered_stays_entry_delay() {
    let mut alarm = entry_delay_alarm();
    alarm.add_zone(1, ZoneKind::Delay).unwrap();
    alarm.report_zone_event(1, ZoneStatus::Triggered).unwrap();
    assert_eq!(alarm.state(), State::EntryDelay);
}

#[test]
fn exit_delay_zone_event_does_not_change_state() {
    let mut alarm = Alarm::new();
    alarm.arm().unwrap();
    assert_eq!(alarm.state(), State::ExitDelay);
    alarm.add_zone(1, ZoneKind::Instant).unwrap();
    alarm.report_zone_event(1, ZoneStatus::Triggered).unwrap();
    assert_eq!(alarm.state(), State::ExitDelay);
}

#[test]
fn disarmed_zone_event_does_not_change_state() {
    let mut alarm = Alarm::new();
    alarm.add_zone(1, ZoneKind::Instant).unwrap();
    alarm.report_zone_event(1, ZoneStatus::Triggered).unwrap();
    assert_eq!(alarm.state(), State::Disarmed);
}

#[test]
fn triggered_zone_event_does_not_change_state() {
    let mut alarm = triggered_alarm();
    alarm.add_zone(1, ZoneKind::Instant).unwrap();
    alarm.report_zone_event(1, ZoneStatus::Triggered).unwrap();
    assert_eq!(alarm.state(), State::Triggered);
}

#[test]
fn all_zones_clear_true_with_no_zones() {
    let alarm = Alarm::new();
    assert!(alarm.all_zones_clear());
}

#[test]
fn all_zones_clear_true_when_all_clear() {
    let mut alarm = Alarm::new();
    alarm.add_zone(1, ZoneKind::Instant).unwrap();
    alarm.add_zone(2, ZoneKind::Delay).unwrap();
    assert!(alarm.all_zones_clear());
}

#[test]
fn all_zones_clear_false_when_one_triggered() {
    let mut alarm = Alarm::new();
    alarm.add_zone(1, ZoneKind::Instant).unwrap();
    alarm.add_zone(2, ZoneKind::Delay).unwrap();
    alarm.report_zone_event(2, ZoneStatus::Triggered).unwrap();
    assert!(!alarm.all_zones_clear());
}

#[test]
fn complete_exit_delay_from_disarmed_errors() {
    let mut alarm = Alarm::new();
    let result = alarm.complete_exit_delay();
    assert_eq!(
        result,
        Err(WrongStateError {
            actual: State::Disarmed,
            expected: State::ExitDelay,
        })
    );
    assert_eq!(alarm.state(), State::Disarmed);
}

#[test]
fn complete_exit_delay_with_no_zones_arms() {
    let mut alarm = Alarm::new();
    alarm.arm().unwrap();
    let result = alarm.complete_exit_delay();
    assert_eq!(result, Ok(true));
    assert_eq!(alarm.state(), State::Armed);
}

#[test]
fn complete_exit_delay_with_triggered_zone_stays_exit_delay() {
    let mut alarm = Alarm::new();
    alarm.add_zone(1, ZoneKind::Instant).unwrap();
    alarm.arm().unwrap();
    alarm.report_zone_event(1, ZoneStatus::Triggered).unwrap();

    let result = alarm.complete_exit_delay();
    assert_eq!(result, Ok(false));
    assert_eq!(alarm.state(), State::ExitDelay);

    alarm.report_zone_event(1, ZoneStatus::Clear).unwrap();
    let result = alarm.complete_exit_delay();
    assert_eq!(result, Ok(true));
    assert_eq!(alarm.state(), State::Armed);
}

#[test]
fn complete_entry_delay_from_other_state_errors() {
    let mut alarm = Alarm::new();
    let result = alarm.complete_entry_delay();
    assert_eq!(
        result,
        Err(WrongStateError {
            actual: State::Disarmed,
            expected: State::EntryDelay,
        })
    );
    assert_eq!(alarm.state(), State::Disarmed);
}

#[test]
fn complete_entry_delay_from_entry_delay_triggers() {
    let mut alarm = entry_delay_alarm();
    let result = alarm.complete_entry_delay();
    assert_eq!(result, Ok(()));
    assert_eq!(alarm.state(), State::Triggered);
}

// Further properties of the alarm.

#[test]
fn reported_status_reads_back_for_each_zone() {
    let mut alarm = Alarm::new();
    alarm.add_zone(1, ZoneKind::Instant).unwrap();
    alarm.add_zone(2, ZoneKind::Delay).unwrap();
    alarm.report_zone_event(1, ZoneStatus::Triggered).unwrap();
    assert_eq!(alarm.zone_status(1), Some(ZoneStatus::Triggered));
    assert_eq!(alarm.zone_status(2), Some(ZoneStatus::Clear));
    alarm.report_zone_event(1, ZoneStatus::Clear).unwrap();
    assert_eq!(alarm.zone_status(1), Some(ZoneStatus::Clear));
}

#[test]
fn disarm_keeps_zone_statuses() {
    let mut alarm = triggered_alarm();
    alarm.disarm();
    assert_eq!(alarm.state(), State::Disarmed);
    assert_eq!(alarm.zone_status(1000), Some(ZoneStatus::Triggered));
}

#[test]
fn triggered_alarm_ignores_everything_but_disarm() {
    let mut alarm = triggered_alarm();
    assert_eq!(
        alarm.arm(),
        Err(WrongStateError {
            actual: State::Triggered,
            expected: State::Disarmed,
        })
    );
    assert!(alarm.complete_exit_delay().is_err());
    assert!(alarm.complete_entry_delay().is_err());
    alarm.report_zone_event(1000, ZoneStatus::Clear).unwrap();
    assert_eq!(alarm.state(), State::Triggered);
    alarm.disarm();
    assert_eq!(alarm.state(), State::Disarmed);
}

#[test]
fn list_zones_lists_in_registration_order() {
    let mut alarm = Alarm::new();
    alarm.add_zone(3, ZoneKind::Delay).unwrap();
    alarm.add_zone(1, ZoneKind::Instant).unwrap();
    alarm.report_zone_event(1, ZoneStatus::Triggered).unwrap();
    assert_eq!(
        alarm.list_zones(),
        vec![
            (3, ZoneKind::Delay, ZoneStatus::Clear),
            (1, ZoneKind::Instant, ZoneStatus::Triggered),
        ]
    );
}

#[test]
fn remove_zone_outcomes() {
    let mut alarm = Alarm::new();
    alarm.add_zone(1, ZoneKind::Instant).unwrap();
    alarm.add_zone(2, ZoneKind::Delay).unwrap();
    assert_eq!(alarm.remove_zone(7), Err(RemoveZoneError::UnknownZone(7)));
    alarm.report_zone_event(1, ZoneStatus::Triggered).unwrap();
    assert_eq!(alarm.remove_zone(1), Err(RemoveZoneError::ZoneTriggered(1)));
    assert_eq!(alarm.zone_status(1), Some(ZoneStatus::Triggered));
    assert_eq!(alarm.remove_zone(2), Ok(()));
    assert_eq!(alarm.zone_status(2), None);
    assert_eq!(alarm.list_zones(), vec![(1, ZoneKind::Instant, ZoneStatus::Triggered)]);
}

#[test]
fn remove_then_add_again_starts_clear() {
    let mut alarm = Alarm::new();
    alarm.add_zone(5, ZoneKind::Instant).unwrap();
    alarm.remove_zone(5).unwrap();
    assert!(alarm.list_zones().is_empty());
    alarm.add_zone(5, ZoneKind::Delay).unwrap();
    assert_eq!(alarm.list_zones(), vec![(5, ZoneKind::Delay, ZoneStatus::Clear)]);
}

#[test]
fn error_messages() {
    let err = WrongStateError {
        actual: State::Armed,
        expected: State::ExitDelay,
    };
    assert_eq!(
        err.message(),
        "expected state ExitDelay, but actual state is Armed"
    );
    assert_eq!(
        ZoneAlreadyExistsError(12).message(),
        "zone 12 is already registered"
    );
    assert_eq!(UnknownZoneError(0).message(), "zone 0 is not registered");
}

#[test]
fn default_alarm_is_new_alarm() {
    let alarm = Alarm::default();
    assert_eq!(alarm.state(), State::Disarmed);
    assert!(alarm.list_zones().is_empty());
}
