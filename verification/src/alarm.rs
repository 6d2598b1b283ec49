//! The alarm's state machine: arming, disarming, entry/exit delays and zone
//! tracking. No I/O: every transition is driven by the caller.

use crate::api::{state_name, state_to_str};
use crate::text::{decimal, push_decimal};
use std::collections::HashMap;
use vstd::prelude::*;

verus! {

broadcast use vstd::std_specs::hash::group_hash_axioms;

/// The arming state of the alarm.
#[derive(Debug, Clone, Copy, PartialEq, Eq, Structural)]
pub enum State {
    Disarmed,
    ExitDelay,
    Armed,
    EntryDelay,
    Triggered,
}

/// A transition was requested from a state that does not allow it.
#[derive(Debug, Clone, Copy, PartialEq, Eq, Structural)]
pub struct WrongStateError {
    pub actual: State,
    pub expected: State,
}

/// How a zone reacts to being triggered while the alarm is armed.
#[derive(Debug, Clone, Copy, PartialEq, Eq, Structural)]
pub enum ZoneKind {
    Delay,
    Instant,
}

/// The physical status of a zone, as last reported.
#[derive(Debug, Clone, Copy, PartialEq, Eq, Structural)]
pub enum ZoneStatus {
    Clear,
    Triggered,
}

/// `add_zone` was given an id that is already registered.
#[derive(Debug, Clone, Copy, PartialEq, Eq, Structural)]
pub struct ZoneAlreadyExistsError(pub u32);

/// A zone id that is not registered.
#[derive(Debug, Clone, Copy, PartialEq, Eq, Structural)]
pub struct UnknownZoneError(pub u32);

/// Why a zone could not be removed.
#[derive(Debug, Clone, Copy, PartialEq, Eq, Structural)]
pub enum RemoveZoneError {
    UnknownZone(u32),
    ZoneTriggered(u32),
}

/// The abstract zone table: each registered id with its kind and status.
pub type ZoneMap = Map<u32, (ZoneKind, ZoneStatus)>;

/// The state reached when a zone of `kind` reports `status` while the alarm
/// is in `state`.
pub open spec fn state_after_zone_event(state: State, status: ZoneStatus, kind: ZoneKind) -> State {
    match (state, status, kind) {
        (State::Armed, ZoneStatus::Triggered, ZoneKind::Instant) => State::Triggered,
        (State::Armed, ZoneStatus::Triggered, ZoneKind::Delay) => State::EntryDelay,
        (State::EntryDelay, ZoneStatus::Triggered, ZoneKind::Instant) => State::Triggered,
        _ => state,
    }
}

/// Every registered zone is clear.
pub open spec fn zones_all_clear(zones: ZoneMap) -> bool {
    forall|id: u32| #[trigger] zones.contains_key(id) ==> zones[id].1 == ZoneStatus::Clear
}

/// `list` holds each zone of `zones` exactly once, as `(id, kind, status)`.
pub open spec fn lists_zones(list: Seq<(u32, ZoneKind, ZoneStatus)>, zones: ZoneMap) -> bool {
    &&& forall|i: int|
        0 <= i < list.len() ==> #[trigger] zones.contains_key(list[i].0) && zones[list[i].0] == (
            list[i].1,
            list[i].2,
        )
    &&& forall|id: u32| #[trigger]
        zones.contains_key(id) ==> exists|i: int| 0 <= i < list.len() && #[trigger] list[i].0 == id
    &&& forall|i: int, j: int| 0 <= i < j < list.len() ==> list[i].0 != list[j].0
}

/// The abstract alarm: its arming state and its zone table.
pub type AlarmModel = (State, ZoneMap);

/// The status of zone `id` in `zones`, if it is registered.
pub open spec fn zone_status_in(zones: ZoneMap, id: u32) -> Option<ZoneStatus> {
    if zones.contains_key(id) {
        Some(zones[id].1)
    } else {
        None
    }
}

/// The alarm after a successful `arm`, or unchanged when not disarmed.
pub open spec fn after_arm(v: AlarmModel) -> AlarmModel {
    if v.0 == State::Disarmed {
        (State::ExitDelay, v.1)
    } else {
        v
    }
}

/// The alarm after `disarm`.
pub open spec fn after_disarm(v: AlarmModel) -> AlarmModel {
    (State::Disarmed, v.1)
}

/// The alarm after `add_zone(id, kind)`: unchanged when `id` is taken.
pub open spec fn after_add_zone(v: AlarmModel, id: u32, kind: ZoneKind) -> AlarmModel {
    if v.1.contains_key(id) {
        v
    } else {
        (v.0, v.1.insert(id, (kind, ZoneStatus::Clear)))
    }
}

/// The alarm after zone `id` reports `status`: unchanged when `id` is not
/// registered.
pub open spec fn after_zone_event(v: AlarmModel, id: u32, status: ZoneStatus) -> AlarmModel {
    if v.1.contains_key(id) {
        (state_after_zone_event(v.0, status, v.1[id].0), v.1.insert(id, (v.1[id].0, status)))
    } else {
        v
    }
}

/// The alarm after `complete_exit_delay`.
pub open spec fn after_exit_delay(v: AlarmModel) -> AlarmModel {
    if v.0 == State::ExitDelay && zones_all_clear(v.1) {
        (State::Armed, v.1)
    } else {
        v
    }
}

/// The alarm after `complete_entry_delay`.
pub open spec fn after_entry_delay(v: AlarmModel) -> AlarmModel {
    if v.0 == State::EntryDelay {
        (State::Triggered, v.1)
    } else {
        v
    }
}

/// The alarm after `remove_zone(id)`: only a registered, clear zone goes.
pub open spec fn after_remove_zone(v: AlarmModel, id: u32) -> AlarmModel {
    if v.1.contains_key(id) && v.1[id].1 == ZoneStatus::Clear {
        (v.0, v.1.remove(id))
    } else {
        v
    }
}

/// The alarm: its arming state and its registered zones.
pub struct Alarm {
    state: State,
    zones: HashMap<u32, (ZoneKind, ZoneStatus)>,
    /// The registered ids, in registration order.
    ids: Vec<u32>,
}

impl View for Alarm {
    type V = (State, ZoneMap);

    closed spec fn view(&self) -> (State, ZoneMap) {
        (self.state, self.zones@)
    }
}

impl Alarm {
    /// The internal invariant: `ids` lists exactly the registered zones,
    /// each once.
    pub closed spec fn wf(&self) -> bool {
        &&& self.ids@.no_duplicates()
        &&& forall|i: int| 0 <= i < self.ids@.len() ==> #[trigger] self.zones@.contains_key(self.ids@[i])
        &&& forall|id: u32| #[trigger] self.zones@.contains_key(id) ==> self.ids@.contains(id)
    }

    /// A disarmed alarm with no zones.
    pub fn new() -> (alarm: Self)
        ensures
            alarm.wf(),
            alarm@.0 == State::Disarmed,
            alarm@.1 == ZoneMap::empty(),
    {
        Alarm { state: State::Disarmed, zones: HashMap::new(), ids: Vec::new() }
    }

    pub fn state(&self) -> (state: State)
        ensures
            state == self@.0,
    {
        self.state
    }

    /// Starts the exit delay; only allowed while disarmed.
    pub fn arm(&mut self) -> (result: Result<(), WrongStateError>)
        requires
            old(self).wf(),
        ensures
            final(self).wf(),
            final(self)@ == after_arm(old(self)@),
            result is Ok ==> final(self)@ == (State::ExitDelay, old(self)@.1),
            result is Err ==> final(self)@ == old(self)@,
            old(self)@.0 == State::Disarmed ==> result is Ok,
            old(self)@.0 != State::Disarmed ==> result == Err::<(), WrongStateError>(
                WrongStateError { actual: old(self)@.0, expected: State::Disarmed },
            ),
    {
        if self.state == State::Disarmed {
            self.state = State::ExitDelay;
            Ok(())
        } else {
            Err(WrongStateError { actual: self.state, expected: State::Disarmed })
        }
    }

    /// Unconditionally transitions to `Disarmed` from any state.
    ///
    /// This deliberately does not reset any zone's status: zone status reflects
    /// physical reality as reported by `report_zone_event`, independent of the
    /// alarm's arming state.
    pub fn disarm(&mut self)
        requires
            old(self).wf(),
        ensures
            final(self).wf(),
            final(self)@ == after_disarm(old(self)@),
            final(self)@.0 == State::Disarmed,
            final(self)@.1 == old(self)@.1,
    {
        self.state = State::Disarmed;
    }

    /// Registers a new zone, initially clear.
    pub fn add_zone(&mut self, id: u32, kind: ZoneKind) -> (result: Result<
        (),
        ZoneAlreadyExistsError,
    >)
        requires
            old(self).wf(),
        ensures
            final(self).wf(),
            final(self)@ == after_add_zone(old(self)@, id, kind),
            !old(self)@.1.contains_key(id) ==> result is Ok,
            old(self)@.1.contains_key(id) ==> result == Err::<(), ZoneAlreadyExistsError>(
                ZoneAlreadyExistsError(id),
            ),
    {
        if self.zones.contains_key(&id) {
            return Err(ZoneAlreadyExistsError(id));
        }
        let ghost old_ids = self.ids@;
        self.zones.insert(id, (kind, ZoneStatus::Clear));
        self.ids.push(id);
        proof {
            assert forall|i: int| 0 <= i < self.ids@.len() implies #[trigger] self.zones@.contains_key(
                self.ids@[i],
            ) by {
                if i < old_ids.len() {
                    assert(self.ids@[i] == old_ids[i]);
                }
            }
            assert forall|k: u32| #[trigger] self.zones@.contains_key(k) implies self.ids@.contains(
                k,
            ) by {
                if k != id {
                    assert(old_ids.contains(k));
                    let j = choose|j: int| 0 <= j < old_ids.len() && old_ids[j] == k;
                    assert(self.ids@[j] == k);
                } else {
                    assert(self.ids@[old_ids.len() as int] == id);
                }
            }
            assert(self.ids@.no_duplicates()) by {
                assert forall|i: int, j: int|
                    0 <= i < self.ids@.len() && 0 <= j < self.ids@.len() && i != j implies self.ids@[i]
                    != self.ids@[j] by {
                    if i < old_ids.len() && j < old_ids.len() {
                        assert(self.ids@[i] == old_ids[i]);
                        assert(self.ids@[j] == old_ids[j]);
                    } else if i < old_ids.len() {
                        assert(self.ids@[i] == old_ids[i]);
                        assert(self.zones@.contains_key(old_ids[i]));
                    } else {
                        assert(self.ids@[j] == old_ids[j]);
                    }
                }
            }
        }
        Ok(())
    }

    /// The status of zone `id`, if it is registered.
    pub fn zone_status(&self, id: u32) -> (status: Option<ZoneStatus>)
        ensures
            status == zone_status_in(self@.1, id),
    {
        match self.zones.get(&id) {
            Some(zone) => Some(zone.1),
            None => None,
        }
    }

    /// Whether every registered zone is clear (vacuously true with no zones).
    pub fn all_zones_clear(&self) -> (clear: bool)
        requires
            self.wf(),
        ensures
            clear == zones_all_clear(self@.1),
    {
        let n = self.ids.len();
        let mut i: usize = 0;
        while i < n
            invariant
                self.wf(),
                n == self.ids@.len(),
                i <= n,
                forall|j: int|
                    0 <= j < i ==> #[trigger] self.zones@[self.ids@[j]].1 == ZoneStatus::Clear,
            decreases n - i,
        {
            let id = self.ids[i];
            assert(self.zones@.contains_key(id));
            match self.zones.get(&id) {
                Some(zone) => {
                    if zone.1 != ZoneStatus::Clear {
                        return false;
                    }
                },
                None => {},
            }
            i += 1;
        }
        proof {
            assert forall|id: u32| #[trigger] self.zones@.contains_key(id) implies self.zones@[id].1
                == ZoneStatus::Clear by {
                assert(self.ids@.contains(id));
                let j = choose|j: int| 0 <= j < self.ids@.len() && self.ids@[j] == id;
                assert(self.zones@[self.ids@[j]].1 == ZoneStatus::Clear);
            }
        }
        true
    }

    /// Records the status a zone reports and applies its effect on the
    /// arming state.
    pub fn report_zone_event(&mut self, id: u32, status: ZoneStatus) -> (result: Result<
        (),
        UnknownZoneError,
    >)
        requires
            old(self).wf(),
        ensures
            final(self).wf(),
            final(self)@ == after_zone_event(old(self)@, id, status),
            final(self)@.1.dom() == old(self)@.1.dom(),
            forall|k: u32| #[trigger]
                old(self)@.1.contains_key(k) ==> final(self)@.1[k].0 == old(self)@.1[k].0,
            old(self)@.1.contains_key(id) ==> result is Ok,
            !old(self)@.1.contains_key(id) ==> result == Err::<(), UnknownZoneError>(
                UnknownZoneError(id),
            ),
    {
        let kind = match self.zones.get(&id) {
            Some(zone) => zone.0,
            None => {
                return Err(UnknownZoneError(id));
            },
        };
        self.zones.insert(id, (kind, status));
        proof {
            assert forall|k: u32| #[trigger] self.zones@.contains_key(k) implies self.ids@.contains(
                k,
            ) by {
                assert(old(self).zones@.contains_key(k));
            }
        }
        match (self.state, status, kind) {
            (State::Armed, ZoneStatus::Triggered, ZoneKind::Instant) => {
                self.state = State::Triggered;
            },
            (State::Armed, ZoneStatus::Triggered, ZoneKind::Delay) => {
                self.state = State::EntryDelay;
            },
            (State::EntryDelay, ZoneStatus::Triggered, ZoneKind::Instant) => {
                self.state = State::Triggered;
            },
            _ => {},
        }
        Ok(())
    }

    /// Ends the exit delay: arms if every zone is clear (`Ok(true)`), else
    /// stays in the exit delay (`Ok(false)`).
    pub fn complete_exit_delay(&mut self) -> (result: Result<bool, WrongStateError>)
        requires
            old(self).wf(),
        ensures
            final(self).wf(),
            final(self)@ == after_exit_delay(old(self)@),
            old(self)@.0 != State::ExitDelay ==> result == Err::<bool, WrongStateError>(
                WrongStateError { actual: old(self)@.0, expected: State::ExitDelay },
            ),
            old(self)@.0 == State::ExitDelay ==> result == Ok::<bool, WrongStateError>(
                zones_all_clear(old(self)@.1),
            ),
    {
        if self.state != State::ExitDelay {
            return Err(WrongStateError { actual: self.state, expected: State::ExitDelay });
        }
        if self.all_zones_clear() {
            self.state = State::Armed;
            Ok(true)
        } else {
            Ok(false)
        }
    }

    /// Every registered zone as `(id, kind, status)`, in registration order.
    pub fn list_zones(&self) -> (zones: Vec<(u32, ZoneKind, ZoneStatus)>)
        requires
            self.wf(),
        ensures
            lists_zones(zones@, self@.1),
    {
        let n = self.ids.len();
        let mut out: Vec<(u32, ZoneKind, ZoneStatus)> = Vec::new();
        let mut i: usize = 0;
        while i < n
            invariant
                self.wf(),
                n == self.ids@.len(),
                i <= n,
                out@.len() == i,
                forall|j: int|
                    0 <= j < i ==> #[trigger] out@[j] == (
                        self.ids@[j],
                        self.zones@[self.ids@[j]].0,
                        self.zones@[self.ids@[j]].1,
                    ),
            decreases n - i,
        {
            let id = self.ids[i];
            assert(self.zones@.contains_key(id));
            match self.zones.get(&id) {
                Some(zone) => {
                    out.push((id, zone.0, zone.1));
                },
                None => {},
            }
            i += 1;
        }
        proof {
            assert forall|id: u32| #[trigger] self.zones@.contains_key(id) implies exists|j: int|
                0 <= j < out@.len() && #[trigger] out@[j].0 == id by {
                assert(self.ids@.contains(id));
                let j = choose|j: int| 0 <= j < self.ids@.len() && self.ids@[j] == id;
                assert(out@[j].0 == id);
            }
            assert forall|a: int, b: int| 0 <= a < b < out@.len() implies out@[a].0 != out@[b].0 by {
                assert(out@[a].0 == self.ids@[a]);
                assert(out@[b].0 == self.ids@[b]);
            }
            assert forall|j: int| 0 <= j < out@.len() implies #[trigger] self@.1.contains_key(
                out@[j].0,
            ) && self@.1[out@[j].0] == (out@[j].1, out@[j].2) by {
                assert(out@[j] == (
                    self.ids@[j],
                    self.zones@[self.ids@[j]].0,
                    self.zones@[self.ids@[j]].1,
                ));
            }
        }
        out
    }

    /// Unregisters a clear zone. A triggered zone cannot be removed.
    pub fn remove_zone(&mut self, id: u32) -> (result: Result<(), RemoveZoneError>)
        requires
            old(self).wf(),
        ensures
            final(self).wf(),
            final(self)@ == after_remove_zone(old(self)@, id),
            !old(self)@.1.contains_key(id) ==> result == Err::<(), RemoveZoneError>(
                RemoveZoneError::UnknownZone(id),
            ),
            old(self)@.1.contains_key(id) && old(self)@.1[id].1 == ZoneStatus::Triggered ==> result
                == Err::<(), RemoveZoneError>(RemoveZoneError::ZoneTriggered(id)),
            old(self)@.1.contains_key(id) && old(self)@.1[id].1 == ZoneStatus::Clear ==> result
                is Ok,
    {
        match self.zones.get(&id) {
            None => {
                return Err(RemoveZoneError::UnknownZone(id));
            },
            Some(zone) => {
                if zone.1 == ZoneStatus::Triggered {
                    return Err(RemoveZoneError::ZoneTriggered(id));
                }
            },
        }
        let ghost old_ids = self.ids@;
        let n = self.ids.len();
        let mut pos: usize = 0;
        while pos < n
            invariant
                n == self.ids@.len(),
                self.ids@ == old_ids,
                pos <= n,
                forall|j: int| 0 <= j < pos ==> self.ids@[j] != id,
            ensures
                n == self.ids@.len(),
                self.ids@ == old_ids,
                pos <= n,
                forall|j: int| 0 <= j < pos ==> self.ids@[j] != id,
                pos < n ==> self.ids@[pos as int] == id,
            decreases n - pos,
        {
            if self.ids[pos] == id {
                break;
            }
            pos += 1;
        }
        proof {
            if pos == n {
                assert(self.ids@.contains(id));
                let j = choose|j: int| 0 <= j < self.ids@.len() && self.ids@[j] == id;
                assert(false);
            }
        }
        self.ids.remove(pos);
        self.zones.remove(&id);
        proof {
            assert(old_ids[pos as int] == id);
            assert(self.ids@ == old_ids.remove(pos as int));
            assert forall|i: int| 0 <= i < self.ids@.len() implies #[trigger] self.zones@.contains_key(
                self.ids@[i],
            ) by {
                if i < pos {
                    assert(self.ids@[i] == old_ids[i]);
                    assert(old_ids[i] != old_ids[pos as int]);
                } else {
                    assert(self.ids@[i] == old_ids[i + 1]);
                    assert(old_ids[i + 1] != old_ids[pos as int]);
                }
            }
            assert forall|k: u32| #[trigger] self.zones@.contains_key(k) implies self.ids@.contains(
                k,
            ) by {
                assert(old_ids.contains(k));
                let j = choose|j: int| 0 <= j < old_ids.len() && old_ids[j] == k;
                if j < pos {
                    assert(self.ids@[j] == k);
                } else {
                    assert(j != pos);
                    assert(self.ids@[j - 1] == k);
                }
            }
            assert(self.ids@.no_duplicates()) by {
                assert forall|a: int, b: int|
                    0 <= a < self.ids@.len() && 0 <= b < self.ids@.len() && a != b implies self.ids@[a]
                    != self.ids@[b] by {
                    let oa = if a < pos { a } else { a + 1 };
                    let ob = if b < pos { b } else { b + 1 };
                    assert(self.ids@[a] == old_ids[oa]);
                    assert(self.ids@[b] == old_ids[ob]);
                }
            }
        }
        Ok(())
    }

    /// Ends the entry delay by triggering the alarm.
    pub fn complete_entry_delay(&mut self) -> (result: Result<(), WrongStateError>)
        requires
            old(self).wf(),
        ensures
            final(self).wf(),
            final(self)@ == after_entry_delay(old(self)@),
            old(self)@.0 != State::EntryDelay ==> result == Err::<(), WrongStateError>(
                WrongStateError { actual: old(self)@.0, expected: State::EntryDelay },
            ),
            old(self)@.0 == State::EntryDelay ==> result is Ok,
    {
        if self.state != State::EntryDelay {
            return Err(WrongStateError { actual: self.state, expected: State::EntryDelay });
        }
        self.state = State::Triggered;
        Ok(())
    }
}

impl WrongStateError {
    /// The human-readable description of the error.
    pub fn message(&self) -> (text: String)
        ensures
            text@ == "expected state "@ + state_name(self.expected) + ", but actual state is "@
                + state_name(self.actual),
    {
        let mut text = String::from_str("expected state ");
        text.append(state_to_str(self.expected));
        text.append(", but actual state is ");
        text.append(state_to_str(self.actual));
        text
    }
}

impl ZoneAlreadyExistsError {
    /// The human-readable description of the error.
    pub fn message(&self) -> (text: String)
        ensures
            text@ == "zone "@ + decimal(self.0 as nat) + " is already registered"@,
    {
        let mut text = String::from_str("zone ");
        push_decimal(&mut text, self.0 as u64);
        text.append(" is already registered");
        text
    }
}

impl UnknownZoneError {
    /// The human-readable description of the error.
    pub fn message(&self) -> (text: String)
        ensures
            text@ == "zone "@ + decimal(self.0 as nat) + " is not registered"@,
    {
        let mut text = String::from_str("zone ");
        push_decimal(&mut text, self.0 as u64);
        text.append(" is not registered");
        text
    }
}

impl Default for Alarm {
    fn default() -> (alarm: Self)
        ensures
            alarm.wf(),
            alarm@.0 == State::Disarmed,
            alarm@.1 == ZoneMap::empty(),
    {
        Alarm::new()
    }
}

} // verus!
