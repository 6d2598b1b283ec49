//! Sensor readings and how they reach the alarm's zones: the sensor-to-zone
//! mapping, the report of a reading, and the scan results a Shelly gateway
//! pushes.

use crate::alarm::{after_zone_event, Alarm, AlarmModel, State, ZoneKind, ZoneStatus};
use crate::bthome::{checked_decode_reading, payload_decodable, payload_outcome_matches, DecodeError};
use crate::text::{decimal, eq_ignore_ascii_case, push_decimal, str_eq, str_eq_ignore_ascii_case};
use vstd::prelude::*;

verus! {

/// What a sensor reports.
#[derive(Debug, Clone, Copy, PartialEq, Eq, Structural)]
pub enum Reading {
    Triggered,
    Normal,
}

/// An integration that acts when the alarm changes state, given the new
/// state and every zone as `(id, kind, status)`.
pub trait Actionneur {
    fn on_state_change(&mut self, state: State, zones: &[(u32, ZoneKind, ZoneStatus)]);
}

/// Why a reading could not be reported.
#[derive(Debug, PartialEq, Eq)]
pub enum ReportError {
    UnknownSensor(String),
    UnknownZone(u32),
}

impl ReportError {
    /// The human-readable description of the error.
    pub fn message(&self) -> (text: String)
        ensures
            text@ == (match self {
                ReportError::UnknownSensor(id) => "sensor "@ + id@ + " is not mapped to a zone"@,
                ReportError::UnknownZone(zone) => "zone "@ + decimal(*zone as nat)
                    + " is not registered"@,
            }),
    {
        match self {
            ReportError::UnknownSensor(id) => {
                let mut text = String::from_str("sensor ");
                text.append(id.as_str());
                text.append(" is not mapped to a zone");
                text
            },
            ReportError::UnknownZone(zone) => {
                let mut text = String::from_str("zone ");
                push_decimal(&mut text, *zone as u64);
                text.append(" is not registered");
                text
            },
        }
    }
}

/// The zone status a reading stands for.
pub open spec fn status_for(reading: Reading) -> ZoneStatus {
    match reading {
        Reading::Triggered => ZoneStatus::Triggered,
        Reading::Normal => ZoneStatus::Clear,
    }
}

/// The abstract mapping: sensor id to zone id.
pub type SensorMap = Map<Seq<char>, u32>;

/// The mapping the rows `(sensor_id, zone_id)` give when applied in order
/// (a later row for the same sensor wins); zone ids are truncated to `u32`.
pub open spec fn map_of_rows(rows: Seq<(String, i64)>) -> SensorMap
    decreases rows.len(),
{
    if rows.len() == 0 {
        SensorMap::empty()
    } else {
        map_of_rows(rows.drop_last()).insert(rows.last().0@, rows.last().1 as u32)
    }
}

/// Loading stored mappings maps each stored sensor to the zone of the last
/// row for it.
pub proof fn law_last_stored_row_wins(rows: Seq<(String, i64)>, i: int)
    requires
        0 <= i < rows.len(),
        forall|j: int| i < j < rows.len() ==> #[trigger] rows[j].0@ != rows[i].0@,
    ensures
        map_of_rows(rows).contains_key(rows[i].0@),
        map_of_rows(rows)[rows[i].0@] == rows[i].1 as u32,
    decreases rows.len(),
{
    if i < rows.len() - 1 {
        let shorter = rows.drop_last();
        assert forall|j: int| i < j < shorter.len() implies #[trigger] shorter[j].0@ != shorter[i].0@ by {
            assert(shorter[j] == rows[j]);
        }
        assert(rows[rows.len() - 1].0@ != rows[i].0@);
        law_last_stored_row_wins(shorter, i);
    }
}

/// Loading stored mappings maps no sensor that has no row.
pub proof fn law_only_stored_sensors_are_mapped(rows: Seq<(String, i64)>, k: Seq<char>)
    ensures
        map_of_rows(rows).contains_key(k) ==> exists|j: int|
            0 <= j < rows.len() && #[trigger] rows[j].0@ == k,
    decreases rows.len(),
{
    if rows.len() > 0 {
        law_only_stored_sensors_are_mapped(rows.drop_last(), k);
        if map_of_rows(rows.drop_last()).contains_key(k) {
            let j = choose|j: int| 0 <= j < rows.drop_last().len() && #[trigger] rows.drop_last()[j].0@ == k;
            assert(rows[j] == rows.drop_last()[j]);
        } else if map_of_rows(rows).contains_key(k) {
            assert(rows[rows.len() - 1].0@ == k);
        }
    }
}

/// A triggered reading marks its zone triggered, a normal one clear.
pub proof fn law_reading_sets_zone_status(reading: Reading)
    ensures
        (status_for(reading) == ZoneStatus::Triggered) == (reading == Reading::Triggered),
        (status_for(reading) == ZoneStatus::Clear) == (reading == Reading::Normal),
{
}

/// `list` holds each mapping of `m` exactly once.
pub open spec fn lists_mappings(list: Seq<(String, u32)>, m: SensorMap) -> bool {
    &&& forall|i: int|
        0 <= i < list.len() ==> #[trigger] m.contains_key(list[i].0@) && m[list[i].0@] == list[i].1
    &&& forall|k: Seq<char>| #[trigger]
        m.contains_key(k) ==> exists|i: int| 0 <= i < list.len() && #[trigger] list[i].0@ == k
    &&& forall|i: int, j: int| 0 <= i < j < list.len() ==> list[i].0@ != list[j].0@
}

/// Which sensor feeds which zone: the `(sensor_id, zone_id)` pairs, each
/// sensor once (`wf`), and the ghost map from sensor id to zone that they
/// hold, which is the view.
pub struct SensorMappings {
    entries: Vec<(String, u32)>,
    mapping: Ghost<SensorMap>,
}

impl View for SensorMappings {
    type V = SensorMap;

    closed spec fn view(&self) -> SensorMap {
        self.mapping@
    }
}

impl SensorMappings {
    /// The internal invariant: `entries` holds each mapping once.
    pub closed spec fn wf(&self) -> bool {
        lists_mappings(self.entries@, self.mapping@)
    }

    /// No mappings.
    pub fn new() -> (m: Self)
        ensures
            m.wf(),
            m@ == SensorMap::empty(),
    {
        SensorMappings { entries: Vec::new(), mapping: Ghost(SensorMap::empty()) }
    }

    /// The position of `sensor_id` in `entries`, if mapped.
    fn position(&self, sensor_id: &str) -> (pos: Option<usize>)
        requires
            self.wf(),
        ensures
            match pos {
                Some(i) => i < self.entries@.len() && self.entries@[i as int].0@ == sensor_id@,
                None => !self@.contains_key(sensor_id@),
            },
    {
        let n = self.entries.len();
        let mut i: usize = 0;
        while i < n
            invariant
                n == self.entries@.len(),
                i <= n,
                forall|j: int| 0 <= j < i ==> #[trigger] self.entries@[j].0@ != sensor_id@,
            decreases n - i,
        {
            if str_eq(self.entries[i].0.as_str(), sensor_id) {
                return Some(i);
            }
            i += 1;
        }
        proof {
            if self@.contains_key(sensor_id@) {
                let j = choose|j: int|
                    0 <= j < self.entries@.len() && #[trigger] self.entries@[j].0@ == sensor_id@;
                assert(self.entries@[j].0@ != sensor_id@);
            }
        }
        None
    }

    /// The zone `sensor_id` is mapped to.
    pub fn zone_of(&self, sensor_id: &str) -> (zone: Option<u32>)
        requires
            self.wf(),
        ensures
            zone == (if self@.contains_key(sensor_id@) {
                Some(self@[sensor_id@])
            } else {
                None
            }),
    {
        match self.position(sensor_id) {
            Some(i) => Some(self.entries[i].1),
            None => None,
        }
    }

    /// Maps `sensor_id` to `zone_id`, replacing any earlier mapping of it.
    pub fn add_sensor_mapping(&mut self, sensor_id: String, zone_id: u32)
        requires
            old(self).wf(),
        ensures
            final(self).wf(),
            final(self)@ == old(self)@.insert(sensor_id@, zone_id),
    {
        let ghost key = sensor_id@;
        let ghost old_entries = self.entries@;
        let ghost new_map = self.mapping@.insert(key, zone_id);
        match self.position(sensor_id.as_str()) {
            Some(i) => {
                self.entries.set(i, (sensor_id, zone_id));
                self.mapping = Ghost(new_map);
                proof {
                    assert forall|j: int| 0 <= j < self.entries@.len() implies #[trigger]
                        new_map.contains_key(self.entries@[j].0@) && new_map[self.entries@[j].0@]
                        == self.entries@[j].1 by {
                        if j != i {
                            assert(self.entries@[j] == old_entries[j]);
                            assert(old_entries[j].0@ != old_entries[i as int].0@);
                        }
                    }
                    assert forall|k: Seq<char>| #[trigger] new_map.contains_key(k) implies exists|
                        j: int,
                    | 0 <= j < self.entries@.len() && #[trigger] self.entries@[j].0@ == k by {
                        if k == key {
                            assert(self.entries@[i as int].0@ == k);
                        } else {
                            let j = choose|j: int|
                                0 <= j < old_entries.len() && #[trigger] old_entries[j].0@ == k;
                            assert(self.entries@[j] == old_entries[j]);
                        }
                    }
                    assert forall|a: int, b: int| 0 <= a < b < self.entries@.len() implies self.entries@[a].0@
                        != self.entries@[b].0@ by {
                        if a != i && b != i {
                            assert(self.entries@[a] == old_entries[a]);
                            assert(self.entries@[b] == old_entries[b]);
                        } else if a == i {
                            assert(self.entries@[b] == old_entries[b]);
                        } else {
                            assert(self.entries@[a] == old_entries[a]);
                        }
                    }
                }
            },
            None => {
                self.entries.push((sensor_id, zone_id));
                self.mapping = Ghost(new_map);
                proof {
                    let n = old_entries.len() as int;
                    assert forall|j: int| 0 <= j < self.entries@.len() implies #[trigger]
                        new_map.contains_key(self.entries@[j].0@) && new_map[self.entries@[j].0@]
                        == self.entries@[j].1 by {
                        if j < n {
                            assert(self.entries@[j] == old_entries[j]);
                            assert(old(self).mapping@.contains_key(old_entries[j].0@));
                        }
                    }
                    assert forall|k: Seq<char>| #[trigger] new_map.contains_key(k) implies exists|
                        j: int,
                    | 0 <= j < self.entries@.len() && #[trigger] self.entries@[j].0@ == k by {
                        if k == key {
                            assert(self.entries@[n].0@ == k);
                        } else {
                            let j = choose|j: int|
                                0 <= j < old_entries.len() && #[trigger] old_entries[j].0@ == k;
                            assert(self.entries@[j] == old_entries[j]);
                        }
                    }
                    assert forall|a: int, b: int| 0 <= a < b < self.entries@.len() implies self.entries@[a].0@
                        != self.entries@[b].0@ by {
                        assert(self.entries@[a] == old_entries[a]);
                        if b < n {
                            assert(self.entries@[b] == old_entries[b]);
                        } else {
                            assert(old(self).mapping@.contains_key(old_entries[a].0@));
                        }
                    }
                }
            },
        }
    }

    /// Removes the mapping of `sensor_id`, if there is one.
    pub fn remove_sensor_mapping(&mut self, sensor_id: &str)
        requires
            old(self).wf(),
        ensures
            final(self).wf(),
            final(self)@ == old(self)@.remove(sensor_id@),
    {
        let ghost old_entries = self.entries@;
        let ghost new_map = self.mapping@.remove(sensor_id@);
        match self.position(sensor_id) {
            None => {
                assert(self.mapping@.remove(sensor_id@) =~= self.mapping@);
            },
            Some(i) => {
                self.entries.remove(i);
                self.mapping = Ghost(new_map);
                proof {
                    assert forall|j: int| 0 <= j < self.entries@.len() implies #[trigger]
                        new_map.contains_key(self.entries@[j].0@) && new_map[self.entries@[j].0@]
                        == self.entries@[j].1 by {
                        let oj = if j < i { j } else { j + 1 };
                        assert(self.entries@[j] == old_entries[oj]);
                        assert(old_entries[oj].0@ != old_entries[i as int].0@);
                        assert(old(self).mapping@.contains_key(old_entries[oj].0@));
                    }
                    assert forall|k: Seq<char>| #[trigger] new_map.contains_key(k) implies exists|
                        j: int,
                    | 0 <= j < self.entries@.len() && #[trigger] self.entries@[j].0@ == k by {
                        let j = choose|j: int|
                            0 <= j < old_entries.len() && #[trigger] old_entries[j].0@ == k;
                        if j < i {
                            assert(self.entries@[j] == old_entries[j]);
                        } else {
                            assert(j != i);
                            assert(self.entries@[j - 1] == old_entries[j]);
                        }
                    }
                    assert forall|a: int, b: int| 0 <= a < b < self.entries@.len() implies self.entries@[a].0@
                        != self.entries@[b].0@ by {
                        let oa = if a < i { a } else { a + 1 };
                        let ob = if b < i { b } else { b + 1 };
                        assert(self.entries@[a] == old_entries[oa]);
                        assert(self.entries@[b] == old_entries[ob]);
                    }
                }
            },
        }
    }

    /// Every mapping as `(sensor_id, zone_id)`, in the order they were first
    /// added.
    pub fn list_sensor_mappings(&self) -> (list: Vec<(String, u32)>)
        requires
            self.wf(),
        ensures
            lists_mappings(list@, self@),
    {
        let n = self.entries.len();
        let mut out: Vec<(String, u32)> = Vec::new();
        let mut i: usize = 0;
        while i < n
            invariant
                n == self.entries@.len(),
                i <= n,
                out@.len() == i,
                forall|j: int| 0 <= j < i ==> #[trigger] out@[j].0@ == self.entries@[j].0@ && out@[j].1
                    == self.entries@[j].1,
            decreases n - i,
        {
            let entry = &self.entries[i];
            out.push((entry.0.clone(), entry.1));
            i += 1;
        }
        proof {
            assert forall|k: Seq<char>| #[trigger] self@.contains_key(k) implies exists|j: int|
                0 <= j < out@.len() && #[trigger] out@[j].0@ == k by {
                let j = choose|j: int|
                    0 <= j < self.entries@.len() && #[trigger] self.entries@[j].0@ == k;
                assert(out@[j].0@ == k);
            }
        }
        out
    }

    /// The mapping stored rows give, applied in order.
    pub fn from_rows(rows: &Vec<(String, i64)>) -> (m: Self)
        ensures
            m.wf(),
            m@ == map_of_rows(rows@),
    {
        let mut m = SensorMappings::new();
        let n = rows.len();
        let mut i: usize = 0;
        while i < n
            invariant
                n == rows@.len(),
                i <= n,
                m.wf(),
                m@ == map_of_rows(rows@.take(i as int)),
            decreases n - i,
        {
            let row = &rows[i];
            m.add_sensor_mapping(row.0.clone(), row.1 as u32);
            assert(rows@.take(i + 1).drop_last() =~= rows@.take(i as int));
            i += 1;
        }
        assert(rows@.take(n as int) =~= rows@);
        m
    }

    /// The mapped sensor id a scanned address stands for: the address itself
    /// when it is mapped, else a mapped id equal to it up to ASCII case, else
    /// `None` (a device that feeds no zone).
    pub fn canonical_sensor_id(&self, mac: &str) -> (id: Option<String>)
        requires
            self.wf(),
        ensures
            self@.contains_key(mac@) ==> (id matches Some(s) && s@ == mac@),
            !self@.contains_key(mac@) ==> match id {
                Some(s) => self@.contains_key(s@) && eq_ignore_ascii_case(s@, mac@),
                None => forall|k: Seq<char>|
                    #[trigger] self@.contains_key(k) ==> !eq_ignore_ascii_case(k, mac@),
            },
    {
        if let Some(i) = self.position(mac) {
            assert(self@.contains_key(self.entries@[i as int].0@));
            return Some(String::from_str(self.entries[i].0.as_str()));
        }
        let n = self.entries.len();
        let mut i: usize = 0;
        while i < n
            invariant
                self.wf(),
                !self@.contains_key(mac@),
                n == self.entries@.len(),
                i <= n,
                forall|j: int|
                    0 <= j < i ==> !eq_ignore_ascii_case(#[trigger] self.entries@[j].0@, mac@),
            decreases n - i,
        {
            if str_eq_ignore_ascii_case(self.entries[i].0.as_str(), mac) {
                assert(self@.contains_key(self.entries@[i as int].0@));
                return Some(String::from_str(self.entries[i].0.as_str()));
            }
            i += 1;
        }
        proof {
            assert forall|k: Seq<char>| #[trigger] self@.contains_key(k) implies !eq_ignore_ascii_case(
                k,
                mac@,
            ) by {
                let j = choose|j: int|
                    0 <= j < self.entries@.len() && #[trigger] self.entries@[j].0@ == k;
                assert(!eq_ignore_ascii_case(self.entries@[j].0@, mac@));
            }
        }
        None
    }

    /// Reports a sensor's reading to the zone it is mapped to. On success,
    /// gives the alarm's new state when the report changed it (so the caller
    /// can notify), `None` when it did not.
    pub fn report_reading(&self, alarm: &mut Alarm, sensor_id: &str, reading: Reading) -> (result:
        Result<Option<State>, ReportError>)
        requires
            self.wf(),
            old(alarm).wf(),
        ensures
            final(alarm).wf(),
            !self@.contains_key(sensor_id@) ==> final(alarm)@ == old(alarm)@ && (result matches Err(
                ReportError::UnknownSensor(s),
            ) && s@ == sensor_id@),
            self@.contains_key(sensor_id@) ==> ({
                let zone = self@[sensor_id@];
                &&& final(alarm)@ == after_zone_event(old(alarm)@, zone, status_for(reading))
                &&& !old(alarm)@.1.contains_key(zone) ==> result == Err::<
                    Option<State>,
                    ReportError,
                >(ReportError::UnknownZone(zone))
                &&& old(alarm)@.1.contains_key(zone) ==> result == Ok::<Option<State>, ReportError>(
                    if final(alarm)@.0 != old(alarm)@.0 {
                        Some(final(alarm)@.0)
                    } else {
                        None
                    },
                )
            }),
    {
        let zone_id = match self.zone_of(sensor_id) {
            Some(zone_id) => zone_id,
            None => {
                return Err(ReportError::UnknownSensor(String::from_str(sensor_id)));
            },
        };
        let status = match reading {
            Reading::Triggered => ZoneStatus::Triggered,
            Reading::Normal => ZoneStatus::Clear,
        };
        let state_before = alarm.state();
        match alarm.report_zone_event(zone_id, status) {
            Ok(()) => {},
            Err(_) => {
                return Err(ReportError::UnknownZone(zone_id));
            },
        }
        let state_after = alarm.state();
        if state_after != state_before {
            Ok(Some(state_after))
        } else {
            Ok(None)
        }
    }
}

/// Whether `id` is the mapped sensor `canonical_sensor_id` may pick for a
/// scanned address `mac`.
pub open spec fn picks_sensor(m: SensorMap, mac: Seq<char>, id: Seq<char>) -> bool {
    &&& m.contains_key(id)
    &&& eq_ignore_ascii_case(id, mac)
    &&& m.contains_key(mac) ==> id == mac
}

/// Whether some mapped sensor matches a scanned address up to ASCII case.
pub open spec fn some_sensor_matches(m: SensorMap, mac: Seq<char>) -> bool {
    exists|k: Seq<char>| #[trigger] m.contains_key(k) && eq_ignore_ascii_case(k, mac)
}

/// What became of one scan entry.
#[derive(Debug)]
pub enum ScanOutcome {
    /// The entry's address or payload is not a string.
    Malformed,
    /// The address belongs to no mapped sensor: another nearby device.
    UnmappedDevice,
    /// The sensor's advertisement carries empty BTHome service data, which
    /// btsensor cannot decode.
    UndecodableServiceData(String),
    /// The sensor's payload did not decode to a reading.
    DecodeFailed(String, DecodeError),
    /// The reading was reported; with the alarm's new state if it changed.
    Reported(String, Reading, Option<State>),
    /// The reading could not be reported.
    ReportFailed(String, ReportError),
}

/// What processing a scan entry from a mapped sensor may give: the outcome
/// names the sensor picked for the address and agrees with decoding the
/// payload and reporting the reading.
pub open spec fn scan_outcome_matches(
    m: SensorMap,
    before: AlarmModel,
    after: AlarmModel,
    mac: Seq<char>,
    payload: Seq<char>,
    outcome: ScanOutcome,
) -> bool {
    match outcome {
        ScanOutcome::UndecodableServiceData(id) => picks_sensor(m, mac, id@) && !payload_decodable(
            payload,
        ) && after == before,
        ScanOutcome::DecodeFailed(id, err) => picks_sensor(m, mac, id@) && payload_decodable(payload)
            && payload_outcome_matches(payload, Err(err)) && after == before,
        ScanOutcome::Reported(id, reading, changed) => picks_sensor(m, mac, id@) && payload_decodable(
            payload,
        ) && payload_outcome_matches(payload, Ok(reading)) && before.1.contains_key(m[id@])
            && after == after_zone_event(before, m[id@], status_for(reading)) && changed == (if after.0
            != before.0 {
            Some(after.0)
        } else {
            None
        }),
        ScanOutcome::ReportFailed(id, err) => picks_sensor(m, mac, id@) && payload_decodable(payload)
            && (exists|r: Reading| #[trigger] payload_outcome_matches(payload, Ok(r)))
            && !before.1.contains_key(m[id@]) && err == ReportError::UnknownZone(m[id@]) && after
            == before,
        _ => false,
    }
}

impl SensorMappings {
    /// Handles one scan entry: finds the sensor its address belongs to,
    /// decodes its payload and reports the reading to the alarm.
    pub fn process_scan_entry(&self, alarm: &mut Alarm, entry: &ScanEntry) -> (outcome:
        ScanOutcome)
        requires
            self.wf(),
            old(alarm).wf(),
        ensures
            final(alarm).wf(),
            (entry.mac is None || entry.payload is None) ==> outcome is Malformed && final(alarm)@
                == old(alarm)@,
            match (entry.mac, entry.payload) {
                (Some(mac), Some(payload)) => if some_sensor_matches(self@, mac@) {
                    scan_outcome_matches(self@, old(alarm)@, final(alarm)@, mac@, payload@, outcome)
                } else {
                    outcome is UnmappedDevice && final(alarm)@ == old(alarm)@
                },
                _ => true,
            },
    {
        let (mac, payload) = match (&entry.mac, &entry.payload) {
            (Some(mac), Some(payload)) => (mac, payload),
            _ => {
                return ScanOutcome::Malformed;
            },
        };
        let sensor_id = match self.canonical_sensor_id(mac.as_str()) {
            Some(id) => id,
            None => {
                return ScanOutcome::UnmappedDevice;
            },
        };
        let reading = match checked_decode_reading(payload.as_str()) {
            None => {
                return ScanOutcome::UndecodableServiceData(sensor_id);
            },
            Some(Err(err)) => {
                return ScanOutcome::DecodeFailed(sensor_id, err);
            },
            Some(Ok(reading)) => reading,
        };
        match self.report_reading(alarm, sensor_id.as_str(), reading) {
            Ok(changed) => ScanOutcome::Reported(sensor_id, reading, changed),
            Err(err) => ScanOutcome::ReportFailed(sensor_id, err),
        }
    }
}

/// One `ble.scan_result` entry as the gateway sends it: the device address
/// and the base64 advertisement, each present only when it is a string.
pub struct ScanEntry {
    pub mac: Option<String>,
    pub payload: Option<String>,
}

/// One event of a gateway notification: its name, if it is a string, and
/// the entry list of its data, if the data has the expected
/// `[count, [entry, ...]]` shape.
pub struct ScanEvent {
    pub event: Option<String>,
    pub entries: Option<Vec<ScanEntry>>,
}

/// Whether an event is a BLE scan result.
pub open spec fn is_scan_result(event: ScanEvent) -> bool {
    event.event matches Some(name) && name@ == "ble.scan_result"@
}

/// The view of a scan entry.
pub open spec fn entry_view(entry: ScanEntry) -> (Option<Seq<char>>, Option<Seq<char>>) {
    (
        match entry.mac {
            Some(m) => Some(m@),
            None => None,
        },
        match entry.payload {
            Some(p) => Some(p@),
            None => None,
        },
    )
}

/// The entries a notification's events yield, in order: those of every scan
/// result, up to the first scan result whose data does not have the expected
/// shape, which ends the notification.
pub open spec fn scan_entries_of(events: Seq<ScanEvent>) -> Seq<
    (Option<Seq<char>>, Option<Seq<char>>),
>
    decreases events.len(),
{
    if events.len() == 0 {
        Seq::empty()
    } else if !is_scan_result(events[0]) {
        scan_entries_of(events.drop_first())
    } else {
        match events[0].entries {
            None => Seq::empty(),
            Some(entries) => entries@.map_values(|e: ScanEntry| entry_view(e)) + scan_entries_of(
                events.drop_first(),
            ),
        }
    }
}

fn copy_text(s: &Option<String>) -> (c: Option<String>)
    ensures
        match (c, *s) {
            (Some(a), Some(b)) => a@ == b@,
            (None, None) => true,
            _ => false,
        },
{
    match s {
        Some(text) => Some(text.clone()),
        None => None,
    }
}

/// The scan entries of a gateway notification, in the order they are to be
/// processed.
pub fn scan_entries(events: &Vec<ScanEvent>) -> (entries: Vec<ScanEntry>)
    ensures
        entries@.map_values(|e: ScanEntry| entry_view(e)) == scan_entries_of(events@),
{
    let n = events.len();
    let mut out: Vec<ScanEntry> = Vec::new();
    let mut i: usize = 0;
    assert(events@.skip(0) =~= events@);
    while i < n
        invariant
            n == events@.len(),
            i <= n,
            out@.map_values(|e: ScanEntry| entry_view(e)) + scan_entries_of(events@.skip(i as int))
                == scan_entries_of(events@),
        decreases n - i,
    {
        let ghost rest = events@.skip(i as int);
        assert(rest.drop_first() =~= events@.skip(i + 1));
        let event = &events[i];
        let is_scan = match &event.event {
            Some(name) => str_eq(name.as_str(), "ble.scan_result"),
            None => false,
        };
        if is_scan {
            match &event.entries {
                None => {
                    assert(scan_entries_of(rest) =~= Seq::empty());
                    assert(out@.map_values(|e: ScanEntry| entry_view(e)) + Seq::empty()
                        =~= out@.map_values(|e: ScanEntry| entry_view(e)));
                    return out;
                },
                Some(list) => {
                    let ghost before = out@;
                    let m = list.len();
                    let mut j: usize = 0;
                    while j < m
                        invariant
                            m == list@.len(),
                            j <= m,
                            out@.map_values(|e: ScanEntry| entry_view(e)) == before.map_values(
                                |e: ScanEntry| entry_view(e),
                            ) + list@.take(j as int).map_values(|e: ScanEntry| entry_view(e)),
                        decreases m - j,
                    {
                        let entry = &list[j];
                        let copy = ScanEntry {
                            mac: copy_text(&entry.mac),
                            payload: copy_text(&entry.payload),
                        };
                        assert(entry_view(copy) == entry_view(list@[j as int]));
                        let ghost prev = out@;
                        out.push(copy);
                        assert(out@.map_values(|e: ScanEntry| entry_view(e)) =~= prev.map_values(
                            |e: ScanEntry| entry_view(e),
                        ).push(entry_view(list@[j as int])));
                        assert(list@.take(j + 1).map_values(|e: ScanEntry| entry_view(e))
                            =~= list@.take(j as int).map_values(|e: ScanEntry| entry_view(e)).push(
                            entry_view(list@[j as int]),
                        ));
                        assert(out@.map_values(|e: ScanEntry| entry_view(e)) =~= before.map_values(
                            |e: ScanEntry| entry_view(e),
                        ) + list@.take(j + 1).map_values(|e: ScanEntry| entry_view(e)));
                        j += 1;
                    }
                    assert(list@.take(m as int) =~= list@);
                    assert(out@.map_values(|e: ScanEntry| entry_view(e)) + scan_entries_of(
                        events@.skip(i + 1),
                    ) =~= before.map_values(|e: ScanEntry| entry_view(e)) + scan_entries_of(rest));
                },
            }
        }
        i += 1;
    }
    assert(scan_entries_of(events@.skip(n as int)) =~= Seq::empty());
    assert(out@.map_values(|e: ScanEntry| entry_view(e)) + Seq::empty() =~= out@.map_values(
        |e: ScanEntry| entry_view(e),
    ));
    out
}

} // verus!
