use talos::alarm::{Alarm, State, ZoneAlreadyExistsError, ZoneKind, ZoneStatus};
use talos::api::{
    arm_alarm, check_credentials, check_mapping_zone, complete_sia_config, create_zone_in_alarm,
    delete_zone_from_alarm, parse_zone_kind, registration_access, replay_zones, state_message,
    state_to_str, zone_kind_to_str, zone_status_to_str, zones_from_rows, ApiError,
    UnknownZoneKind, INVALID_CREDENTIALS, sensor_mapping_responses, sia_config_response,
    state_response, zone_responses,
};

#[test]
fn names_on_the_wire() {
    assert_eq!(state_to_str(State::Disarmed), "Disarmed");
    assert_eq!(state_to_str(State::ExitDelay), "ExitDelay");
    assert_eq!(state_to_str(State::Armed), "Armed");
    assert_eq!(state_to_str(State::EntryDelay), "EntryDelay");
    assert_eq!(state_to_str(State::Triggered), "Triggered");
    assert_eq!(zone_kind_to_str(ZoneKind::Delay), "Delay");
    assert_eq!(zone_kind_to_str(ZoneKind::Instant), "Instant");
    assert_eq!(zone_status_to_str(ZoneStatus::Clear), "Clear");
    assert_eq!(zone_status_to_str(ZoneStatus::Triggered), "Triggered");
}

#[test]
fn zone_kind_names_round_trip() {
    for kind in [ZoneKind::Delay, ZoneKind::Instant] {
        assert_eq!(parse_zone_kind(zone_kind_to_str(kind)), Ok(kind));
    }
    assert_eq!(
        parse_zone_kind("NotAKind"),
        Err(UnknownZoneKind("NotAKind".to_string()))
    );
    assert_eq!(parse_zone_kind("delay"), Err(UnknownZoneKind("delay".to_string())));
}

#[test]
fn bootstrap_registration_needs_no_token() {
    assert_eq!(registration_access(0, false), Ok(true));
    assert_eq!(registration_access(0, true), Ok(true));
    assert_eq!(registration_access(1, true), Ok(false));
    assert_eq!(
        registration_access(1, false),
        Err(ApiError::Unauthorized("authentication required"))
    );
}

#[test]
fn unknown_user_and_wrong_password_answer_alike() {
    assert_eq!(check_credentials(Some(true)), Ok(()));
    assert_eq!(check_credentials(None), check_credentials(Some(false)));
    assert_eq!(
        check_credentials(None),
        Err(ApiError::Unauthorized(INVALID_CREDENTIALS))
    );
    assert_eq!(ApiError::Unauthorized(INVALID_CREDENTIALS).status_code(), 401);
    assert_eq!(
        ApiError::Unauthorized(INVALID_CREDENTIALS).message(),
        Some("invalid username or password")
    );
}

#[test]
fn error_status_codes() {
    assert_eq!(ApiError::BadRequest("x").status_code(), 400);
    assert_eq!(ApiError::NotFound.status_code(), 404);
    assert_eq!(ApiError::Conflict.status_code(), 409);
    assert_eq!(ApiError::Internal.status_code(), 500);
    assert_eq!(ApiError::Conflict.message(), None);
}

#[test]
fn create_and_delete_zone_requests() {
    let mut alarm = Alarm::new();
    assert_eq!(create_zone_in_alarm(&mut alarm, 1, "Delay"), Ok(ZoneKind::Delay));
    assert_eq!(
        create_zone_in_alarm(&mut alarm, 1, "Instant"),
        Err(ApiError::Conflict)
    );
    assert_eq!(
        create_zone_in_alarm(&mut alarm, 2, "NotAKind"),
        Err(ApiError::BadRequest("invalid zone kind"))
    );
    assert_eq!(create_zone_in_alarm(&mut alarm, 2, "Instant"), Ok(ZoneKind::Instant));
    alarm.report_zone_event(2, ZoneStatus::Triggered).unwrap();
    assert_eq!(delete_zone_from_alarm(&mut alarm, 2), Err(ApiError::Conflict));
    assert_eq!(delete_zone_from_alarm(&mut alarm, 42), Err(ApiError::NotFound));
    assert_eq!(delete_zone_from_alarm(&mut alarm, 1), Ok(ZoneKind::Delay));
    assert_eq!(
        alarm.list_zones(),
        vec![(2, ZoneKind::Instant, ZoneStatus::Triggered)]
    );
}

#[test]
fn arming_twice_conflicts() {
    let mut alarm = Alarm::new();
    assert_eq!(arm_alarm(&mut alarm), Ok(State::ExitDelay));
    assert_eq!(arm_alarm(&mut alarm), Err(ApiError::Conflict));
    assert_eq!(alarm.state(), State::ExitDelay);
}

#[test]
fn replay_registers_stored_zones_clear() {
    let mut alarm = Alarm::new();
    let rows = vec![(1i64, ZoneKind::Delay), (2i64, ZoneKind::Instant)];
    assert_eq!(replay_zones(&mut alarm, &rows), Ok(()));
    let mut zones = alarm.list_zones();
    zones.sort_by_key(|(id, _, _)| *id);
    assert_eq!(
        zones,
        vec![
            (1, ZoneKind::Delay, ZoneStatus::Clear),
            (2, ZoneKind::Instant, ZoneStatus::Clear),
        ]
    );
}

#[test]
fn replay_stops_at_duplicate_id() {
    let mut alarm = Alarm::new();
    // 4294967297 truncates to zone 1.
    let rows = vec![
        (1i64, ZoneKind::Delay),
        (4294967297i64, ZoneKind::Instant),
        (3i64, ZoneKind::Instant),
    ];
    assert_eq!(replay_zones(&mut alarm, &rows), Err(ZoneAlreadyExistsError(1)));
    assert_eq!(alarm.zone_status(3), None);
    assert_eq!(
        alarm.list_zones(),
        vec![(1, ZoneKind::Delay, ZoneStatus::Clear)]
    );
}

#[test]
fn sia_config_needs_all_three_columns() {
    assert_eq!(
        complete_sia_config(Some("1234".to_string()), None, None),
        None
    );
    assert_eq!(
        complete_sia_config(
            Some("1234".to_string()),
            Some("0".to_string()),
            Some("192.168.1.60:5555".to_string())
        ),
        Some((
            "1234".to_string(),
            "0".to_string(),
            "192.168.1.60:5555".to_string()
        ))
    );
}

#[test]
fn stored_zone_rows_are_read_in_order() {
    let rows = vec![
        (4i64, "Instant".to_string()),
        (2i64, "Delay".to_string()),
    ];
    assert_eq!(
        zones_from_rows(&rows),
        Ok(vec![(4, ZoneKind::Instant), (2, ZoneKind::Delay)])
    );
    assert_eq!(zones_from_rows(&vec![]), Ok(vec![]));
    let bad = vec![
        (1i64, "Delay".to_string()),
        (2i64, "Sometimes".to_string()),
        (3i64, "Nope".to_string()),
    ];
    assert_eq!(
        zones_from_rows(&bad),
        Err(UnknownZoneKind("Sometimes".to_string()))
    );
}

#[test]
fn sensors_map_only_to_registered_zones() {
    let mut alarm = Alarm::new();
    alarm.add_zone(5, ZoneKind::Delay).unwrap();
    assert_eq!(check_mapping_zone(&alarm, 5), Ok(()));
    let err = check_mapping_zone(&alarm, 6).unwrap_err();
    assert_eq!(err, ApiError::BadRequest("zone does not exist"));
    assert_eq!(err.status_code(), 400);
}

#[test]
fn live_clients_get_the_state_as_json() {
    assert_eq!(state_message(State::Armed), r#"{"state":"Armed"}"#);
    assert_eq!(state_message(State::EntryDelay), r#"{"state":"EntryDelay"}"#);
    assert_eq!(state_message(State::Disarmed), r#"{"state":"Disarmed"}"#);
}

#[test]
fn login_failures_look_alike() {
    assert_eq!(check_credentials(None), check_credentials(Some(false)));
    assert_eq!(
        check_credentials(None),
        Err(ApiError::Unauthorized(INVALID_CREDENTIALS))
    );
    assert_eq!(check_credentials(Some(true)), Ok(()));
}

#[test]
fn zones_are_listed_by_name() {
    let zones = vec![
        (3, ZoneKind::Delay, ZoneStatus::Clear),
        (8, ZoneKind::Instant, ZoneStatus::Triggered),
    ];
    let listed = zone_responses(&zones);
    assert_eq!(listed.len(), 2);
    assert_eq!(listed[0].id, 3);
    assert_eq!(listed[0].kind, "Delay");
    assert_eq!(listed[0].status, "Clear");
    assert_eq!(listed[1].id, 8);
    assert_eq!(listed[1].kind, "Instant");
    assert_eq!(listed[1].status, "Triggered");
    assert!(zone_responses(&vec![]).is_empty());
}

#[test]
fn responses_carry_names_and_mappings() {
    assert_eq!(state_response(State::ExitDelay).state, "ExitDelay");
    let listed = sensor_mapping_responses(&vec![("door".to_string(), 4), ("hall".to_string(), 9)]);
    assert_eq!(listed.len(), 2);
    assert_eq!(listed[0].sensor_id, "door");
    assert_eq!(listed[0].zone_id, 4);
    assert_eq!(listed[1].sensor_id, "hall");
    assert_eq!(listed[1].zone_id, 9);
}

#[test]
fn sia_config_is_reported_whole_or_not_at_all() {
    let full = sia_config_response(Some((
        "1234".to_string(),
        "0".to_string(),
        "host:1".to_string(),
    )));
    assert_eq!(full.account.as_deref(), Some("1234"));
    assert_eq!(full.prefix.as_deref(), Some("0"));
    assert_eq!(full.receiver_addr.as_deref(), Some("host:1"));
    let none = sia_config_response(None);
    assert!(none.account.is_none() && none.prefix.is_none() && none.receiver_addr.is_none());
}
