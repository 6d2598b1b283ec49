use base64::Engine;
use talos::alarm::{Alarm, State, ZoneKind, ZoneStatus};
use talos::bthome::{
    bthome_service_data, checked_decode_reading, decode_reading, reading_from_advertisement,
    reading_from_elements, BtHomeElement, DecodeError, ShellyModule,
};
use talos::sensors::{
    scan_entries, Actionneur, Reading, ReportError, ScanEntry, ScanEvent, ScanOutcome,
    SensorMappings,
};

fn hex_bytes(s: &str) -> Vec<u8> {
    (0..s.len())
        .step_by(2)
        .map(|i| u8::from_str_radix(&s[i..i + 2], 16).unwrap())
        .collect()
}

fn b64(bytes: &[u8]) -> String {
    base64::engine::general_purpose::STANDARD.encode(bytes)
}

#[test]
fn triggered_ne_normal() {
    assert_ne!(Reading::Triggered, Reading::Normal);
}

#[test]
fn report_with_unknown_sensor_errors() {
    let mut alarm = Alarm::new();
    let mappings = SensorMappings::new();

    let result = mappings.report_reading(&mut alarm, "nope", Reading::Triggered);

    assert_eq!(result, Err(ReportError::UnknownSensor("nope".to_string())));
}

#[test]
fn decode_reading_real_capture_motion_normal() {
    // Captured 2026-07-16, motion object (0x21) = 0x00.
    assert_eq!(
        decode_reading("AgEGDhbS/EQApAFkBYSZACEA").unwrap(),
        Reading::Normal
    );
}

#[test]
fn decode_reading_real_capture_motion_triggered() {
    // Captured 2026-07-16, motion object (0x21) = 0x01.
    assert_eq!(
        decode_reading("AgEGDhbS/EQApQFkBYSyACEB").unwrap(),
        Reading::Triggered
    );
}

#[test]
fn decode_reading_rejects_invalid_base64() {
    assert!(decode_reading("not valid base64!!!").is_err());
}

#[test]
fn decode_reading_rejects_payload_without_bthome_service_data() {
    let payload = b64(&hex_bytes("0201060303aabb"));
    assert!(decode_reading(&payload).is_err());
}

#[test]
fn decode_reading_rejects_bthome_payload_without_opening_or_motion() {
    let payload = b64(&hex_bytes("0201060c16d2fc4400a4016405849900"));
    let err = decode_reading(&payload).unwrap_err();
    assert!(err.message().contains("no opening or motion"));
}

#[test]
fn bthome_service_data_finds_payload_after_uuid() {
    let raw = hex_bytes("0201060e16d2fc4400a40164058499002100");
    let data = bthome_service_data(&raw).unwrap();
    assert_eq!(data, hex_bytes("4400a40164058499002100").as_slice());
}

#[test]
fn bthome_service_data_returns_none_without_bthome_uuid() {
    let raw = hex_bytes("0201060303aabb");
    assert!(bthome_service_data(&raw).is_none());
}

#[test]
fn bthome_service_data_returns_none_on_truncated_structure() {
    let raw = hex_bytes("ff16d2fc44");
    assert!(bthome_service_data(&raw).is_none());
}

#[test]
fn bthome_service_data_returns_none_on_empty_input() {
    assert!(bthome_service_data(&[]).is_none());
}

// Further decoding cases.

#[test]
fn bthome_service_data_stops_at_zero_length() {
    let raw = hex_bytes("00" /* zero length ends the search */);
    assert!(bthome_service_data(&raw).is_none());
    let raw = hex_bytes("0201060016d2fc44");
    assert!(bthome_service_data(&raw).is_none());
}

#[test]
fn bthome_service_data_skips_other_service_data() {
    // A Service Data structure for another UUID, then BTHome's.
    let raw = hex_bytes("0416aabb01" /* other */ );
    assert!(bthome_service_data(&raw).is_none());
    let raw = hex_bytes("0416aabb010516d2fc4411");
    assert_eq!(bthome_service_data(&raw).unwrap(), hex_bytes("4411").as_slice());
}

#[test]
fn decode_errors_by_kind() {
    assert!(matches!(
        decode_reading("not valid base64!!!"),
        Err(DecodeError::InvalidBase64(_))
    ));
    assert_eq!(
        decode_reading(&b64(&hex_bytes("0201060303aabb"))),
        Err(DecodeError::NoBtHomeServiceData)
    );
    // Version bits 0b000 instead of BTHome v2's 0b010.
    assert!(matches!(
        decode_reading(&b64(&hex_bytes("0516d2fc0021"))),
        Err(DecodeError::BtHomeDecodeFailed(_))
    ));
    assert_eq!(
        DecodeError::NoBtHomeServiceData.message(),
        "no BTHome v2 service data in payload"
    );
}

#[test]
fn opening_sensor_reading() {
    // Device info 0x40, opening (0x11) = 1.
    let raw = hex_bytes("0616d2fc401101");
    assert_eq!(reading_from_advertisement(&raw), Ok(Reading::Triggered));
    let raw = hex_bytes("0616d2fc401100");
    assert_eq!(reading_from_advertisement(&raw), Ok(Reading::Normal));
}

#[test]
fn first_opening_or_motion_element_decides() {
    let elements = vec![
        BtHomeElement::Other,
        BtHomeElement::MotionDetected(true),
        BtHomeElement::Open(false),
    ];
    assert_eq!(reading_from_elements(&elements), Some(Reading::Triggered));
    assert_eq!(reading_from_elements(&vec![BtHomeElement::Other]), None);
}

#[test]
fn empty_service_data_is_reported_undecodable() {
    // The BTHome structure carries no data after its UUID.
    let payload = b64(&hex_bytes("0316d2fc"));
    assert!(checked_decode_reading(&payload).is_none());
    let payload = b64(&hex_bytes("0201060303aabb"));
    assert_eq!(
        checked_decode_reading(&payload),
        Some(Err(DecodeError::NoBtHomeServiceData))
    );
}

// Sensor mappings and reports.

fn armed_with_instant_zone() -> Alarm {
    let mut alarm = Alarm::new();
    alarm.add_zone(1, ZoneKind::Instant).unwrap();
    alarm.arm().unwrap();
    alarm.complete_exit_delay().unwrap();
    assert_eq!(alarm.state(), State::Armed);
    alarm
}

#[test]
fn report_triggered_for_mapped_sensor_while_armed_gives_new_state() {
    let mut alarm = armed_with_instant_zone();
    let mut mappings = SensorMappings::new();
    mappings.add_sensor_mapping("front-door".to_string(), 1);

    let result = mappings.report_reading(&mut alarm, "front-door", Reading::Triggered);

    assert_eq!(result, Ok(Some(State::Triggered)));
    assert_eq!(alarm.zone_status(1), Some(ZoneStatus::Triggered));
    // A further report that changes nothing gives no new state.
    let result = mappings.report_reading(&mut alarm, "front-door", Reading::Triggered);
    assert_eq!(result, Ok(None));
}

#[test]
fn report_to_unregistered_zone_errors() {
    let mut alarm = Alarm::new();
    let mut mappings = SensorMappings::new();
    mappings.add_sensor_mapping("back-door".to_string(), 9);
    assert_eq!(
        mappings.report_reading(&mut alarm, "back-door", Reading::Normal),
        Err(ReportError::UnknownZone(9))
    );
    assert_eq!(
        ReportError::UnknownSensor("x".to_string()).message(),
        "sensor x is not mapped to a zone"
    );
}

#[test]
fn mappings_upsert_remove_and_list() {
    let mut mappings = SensorMappings::new();
    mappings.add_sensor_mapping("front-door".to_string(), 1);
    mappings.add_sensor_mapping("back-door".to_string(), 2);
    mappings.add_sensor_mapping("front-door".to_string(), 3);
    assert_eq!(mappings.zone_of("front-door"), Some(3));
    assert_eq!(
        mappings.list_sensor_mappings(),
        vec![("front-door".to_string(), 3), ("back-door".to_string(), 2)]
    );
    mappings.remove_sensor_mapping("front-door");
    mappings.remove_sensor_mapping("nope");
    assert_eq!(mappings.zone_of("front-door"), None);
    assert_eq!(mappings.list_sensor_mappings(), vec![("back-door".to_string(), 2)]);
}

#[test]
fn mappings_from_rows_later_rows_win() {
    let rows = vec![
        ("front-door".to_string(), 1i64),
        ("back-door".to_string(), 2i64),
        ("front-door".to_string(), 4i64),
    ];
    let mappings = SensorMappings::from_rows(&rows);
    assert_eq!(mappings.zone_of("front-door"), Some(4));
    assert_eq!(mappings.zone_of("back-door"), Some(2));
}

#[test]
fn canonical_sensor_id_matches_up_to_ascii_case() {
    let mut mappings = SensorMappings::new();
    mappings.add_sensor_mapping("AA:BB:CC:DD:EE:FF".to_string(), 1);
    assert_eq!(
        mappings.canonical_sensor_id("aa:bb:cc:dd:ee:ff"),
        Some("AA:BB:CC:DD:EE:FF".to_string())
    );
    assert_eq!(
        mappings.canonical_sensor_id("AA:BB:CC:DD:EE:FF"),
        Some("AA:BB:CC:DD:EE:FF".to_string())
    );
    assert_eq!(mappings.canonical_sensor_id("11:22:33:44:55:66"), None);
}

fn entry(mac: Option<&str>, payload: Option<&str>) -> ScanEntry {
    ScanEntry {
        mac: mac.map(|m| m.to_string()),
        payload: payload.map(|p| p.to_string()),
    }
}

#[test]
fn scan_entries_follow_scan_results_until_bad_data() {
    let events = vec![
        ScanEvent {
            event: Some("other".to_string()),
            entries: Some(vec![entry(Some("x"), Some("y"))]),
        },
        ScanEvent {
            event: Some("ble.scan_result".to_string()),
            entries: Some(vec![entry(Some("a"), Some("p")), entry(None, Some("q"))]),
        },
        ScanEvent {
            event: None,
            entries: None,
        },
        ScanEvent {
            event: Some("ble.scan_result".to_string()),
            entries: None,
        },
        ScanEvent {
            event: Some("ble.scan_result".to_string()),
            entries: Some(vec![entry(Some("b"), Some("r"))]),
        },
    ];
    let found = scan_entries(&events);
    let seen: Vec<(Option<String>, Option<String>)> =
        found.into_iter().map(|e| (e.mac, e.payload)).collect();
    assert_eq!(
        seen,
        vec![
            (Some("a".to_string()), Some("p".to_string())),
            (None, Some("q".to_string())),
        ]
    );
}

#[test]
fn process_scan_entry_reports_mapped_sensor() {
    let mut alarm = Alarm::new();
    alarm.add_zone(1, ZoneKind::Instant).unwrap();
    alarm.arm().unwrap();
    alarm.complete_exit_delay().unwrap();
    let mut mappings = SensorMappings::new();
    mappings.add_sensor_mapping("3c:2e:f5:00:00:01".to_string(), 1);

    let outcome = mappings.process_scan_entry(
        &mut alarm,
        &entry(Some("3C:2E:F5:00:00:01"), Some("AgEGDhbS/EQApQFkBYSyACEB")),
    );
    match outcome {
        ScanOutcome::Reported(id, reading, changed) => {
            assert_eq!(id, "3c:2e:f5:00:00:01");
            assert_eq!(reading, Reading::Triggered);
            assert_eq!(changed, Some(State::Triggered));
        }
        other => panic!("unexpected outcome {other:?}"),
    }

    assert!(matches!(
        mappings.process_scan_entry(&mut alarm, &entry(None, Some("x"))),
        ScanOutcome::Malformed
    ));
    assert!(matches!(
        mappings.process_scan_entry(&mut alarm, &entry(Some("ff:ff"), Some("x"))),
        ScanOutcome::UnmappedDevice
    ));
    assert!(matches!(
        mappings.process_scan_entry(
            &mut alarm,
            &entry(Some("3c:2e:f5:00:00:01"), Some("not valid base64!!!"))
        ),
        ScanOutcome::DecodeFailed(_, DecodeError::InvalidBase64(_))
    ));
}

#[test]
fn on_state_change_compiles_and_runs() {
    let mut module = ShellyModule;
    module.on_state_change(State::Armed, &[]);
}

#[test]
fn decode_errors_carry_the_decoders_descriptions() {
    let text = "not valid base64!!!";
    let expected = base64::engine::general_purpose::STANDARD
        .decode(text)
        .unwrap_err()
        .to_string();
    assert_eq!(
        decode_reading(text),
        Err(DecodeError::InvalidBase64(expected.clone()))
    );
    assert_eq!(
        decode_reading(text).unwrap_err().message(),
        format!("invalid base64: {expected}")
    );
}
