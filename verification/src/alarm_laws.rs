//! Properties of the alarm that span several operations, stated over the
//! abstract transitions that `Alarm`'s methods are specified by.

use crate::alarm::{
    after_add_zone, after_arm, after_disarm, after_entry_delay, after_exit_delay, after_remove_zone,
    after_zone_event, zone_status_in, zones_all_clear, AlarmModel, State, ZoneKind, ZoneStatus,
};
use vstd::prelude::*;

verus! {

/// A zone's status reads back as the last status it reported.
pub proof fn law_reported_status_reads_back(v: AlarmModel, id: u32, status: ZoneStatus)
    requires
        v.1.contains_key(id),
    ensures
        zone_status_in(after_zone_event(v, id, status).1, id) == Some(status),
{
}

/// A report from one zone leaves every other zone's status as it was.
pub proof fn law_report_leaves_other_zones(
    v: AlarmModel,
    id: u32,
    status: ZoneStatus,
    other: u32,
)
    requires
        other != id,
    ensures
        zone_status_in(after_zone_event(v, id, status).1, other) == zone_status_in(v.1, other),
{
}

/// A newly registered zone starts clear.
pub proof fn law_new_zone_starts_clear(v: AlarmModel, id: u32, kind: ZoneKind)
    requires
        !v.1.contains_key(id),
    ensures
        zone_status_in(after_add_zone(v, id, kind).1, id) == Some(ZoneStatus::Clear),
{
}

/// Registering an id that is already taken changes nothing, in particular
/// not the existing zone's status.
pub proof fn law_duplicate_zone_changes_nothing(v: AlarmModel, id: u32, kind: ZoneKind)
    requires
        v.1.contains_key(id),
    ensures
        after_add_zone(v, id, kind) == v,
{
}

/// Arming, disarming and completing either delay never touch zone statuses:
/// zone status reflects only what zones report.
pub proof fn law_state_transitions_keep_zones(v: AlarmModel)
    ensures
        after_arm(v).1 == v.1,
        after_disarm(v).1 == v.1,
        after_exit_delay(v).1 == v.1,
        after_entry_delay(v).1 == v.1,
{
}

/// Disarming undoes arming: arming then disarming a disarmed alarm gives it
/// back unchanged.
pub proof fn law_disarm_undoes_arm(v: AlarmModel)
    requires
        v.0 == State::Disarmed,
    ensures
        after_disarm(after_arm(v)) == v,
{
}

/// Removing a zone undoes registering it, as long as it is still clear.
pub proof fn law_remove_undoes_add(v: AlarmModel, id: u32, kind: ZoneKind)
    requires
        !v.1.contains_key(id),
    ensures
        after_remove_zone(after_add_zone(v, id, kind), id) == v,
{
    assert(after_add_zone(v, id, kind).1.remove(id) =~= v.1);
}

/// Once triggered, the alarm stays triggered under every operation except
/// `disarm`.
pub proof fn law_triggered_until_disarmed(
    v: AlarmModel,
    id: u32,
    kind: ZoneKind,
    status: ZoneStatus,
)
    requires
        v.0 == State::Triggered,
    ensures
        after_arm(v).0 == State::Triggered,
        after_add_zone(v, id, kind).0 == State::Triggered,
        after_zone_event(v, id, status).0 == State::Triggered,
        after_exit_delay(v).0 == State::Triggered,
        after_entry_delay(v).0 == State::Triggered,
        after_remove_zone(v, id).0 == State::Triggered,
        after_disarm(v).0 == State::Disarmed,
{
}

/// The alarm becomes armed only by completing the exit delay with every
/// zone clear.
pub proof fn law_armed_only_after_clear_exit_delay(
    v: AlarmModel,
    id: u32,
    kind: ZoneKind,
    status: ZoneStatus,
)
    requires
        v.0 != State::Armed,
    ensures
        after_exit_delay(v).0 == State::Armed <==> (v.0 == State::ExitDelay && zones_all_clear(
            v.1,
        )),
        after_arm(v).0 != State::Armed,
        after_disarm(v).0 != State::Armed,
        after_add_zone(v, id, kind).0 != State::Armed,
        after_zone_event(v, id, status).0 != State::Armed,
        after_entry_delay(v).0 != State::Armed,
        after_remove_zone(v, id).0 != State::Armed,
{
}

/// Zone reports change the arming state only while armed or in the entry
/// delay, and only when the zone reports a trigger.
pub proof fn law_zone_events_only_matter_when_armed(v: AlarmModel, id: u32, status: ZoneStatus)
    ensures
        (v.0 != State::Armed && v.0 != State::EntryDelay) ==> after_zone_event(v, id, status).0
            == v.0,
        status == ZoneStatus::Clear ==> after_zone_event(v, id, status).0 == v.0,
{
}

/// From the entry delay, only an instant zone's trigger (or the delay
/// running out) triggers the alarm; a delay zone's trigger keeps the entry
/// delay going.
pub proof fn law_entry_delay_escalation(v: AlarmModel, id: u32)
    requires
        v.0 == State::EntryDelay,
        v.1.contains_key(id),
    ensures
        after_zone_event(v, id, ZoneStatus::Triggered).0 == (match v.1[id].0 {
            ZoneKind::Instant => State::Triggered,
            ZoneKind::Delay => State::EntryDelay,
        }),
        after_entry_delay(v).0 == State::Triggered,
{
}

/// Disarming works from every state, the entry delay and armed included:
/// the alarm ends up disarmed with every zone as it was, and can be armed
/// again at once.
pub proof fn law_disarm_from_any_state(v: AlarmModel)
    ensures
        after_disarm(v).0 == State::Disarmed,
        after_disarm(v).1 == v.1,
        after_arm(after_disarm(v)).0 == State::ExitDelay,
{
}

/// Arming succeeds only from `Disarmed`, where it starts the exit delay; a
/// refused arm (armed, in a delay, or triggered) leaves the alarm exactly as
/// it was.
pub proof fn law_refused_arm_changes_nothing(v: AlarmModel)
    ensures
        v.0 != State::Disarmed ==> after_arm(v) == v,
        v.0 == State::Disarmed ==> after_arm(v).0 == State::ExitDelay && after_arm(v).1 == v.1,
{
}

/// A zone report never registers or drops a zone and never changes a zone's
/// kind: every registered zone keeps the kind it was registered with.
pub proof fn law_reports_keep_zone_kinds(v: AlarmModel, id: u32, status: ZoneStatus, k: u32)
    ensures
        after_zone_event(v, id, status).1.contains_key(k) == v.1.contains_key(k),
        v.1.contains_key(k) ==> after_zone_event(v, id, status).1[k].0 == v.1[k].0,
{
}

/// The alarm after zone reports `(id, status)` applied in order.
pub open spec fn after_reports(v: AlarmModel, reports: Seq<(u32, ZoneStatus)>) -> AlarmModel
    decreases reports.len(),
{
    if reports.len() == 0 {
        v
    } else {
        let w = after_reports(v, reports.drop_last());
        after_zone_event(w, reports.last().0, reports.last().1)
    }
}

/// However many reports come in, a zone keeps the kind it was registered
/// with.
pub proof fn law_zone_kind_survives_reports(
    v: AlarmModel,
    reports: Seq<(u32, ZoneStatus)>,
    k: u32,
)
    requires
        v.1.contains_key(k),
    ensures
        after_reports(v, reports).1.contains_key(k),
        after_reports(v, reports).1[k].0 == v.1[k].0,
    decreases reports.len(),
{
    if reports.len() > 0 {
        law_zone_kind_survives_reports(v, reports.drop_last(), k);
        law_reports_keep_zone_kinds(
            after_reports(v, reports.drop_last()),
            reports.last().0,
            reports.last().1,
            k,
        );
    }
}

/// While armed, a zone's trigger acts by the kind the zone was registered
/// with: a delay zone starts the entry delay, an instant zone triggers the
/// alarm; the zone is then recorded as triggered, with its kind.
pub proof fn law_armed_trigger_acts_by_kind(v: AlarmModel, id: u32)
    requires
        v.0 == State::Armed,
        v.1.contains_key(id),
    ensures
        after_zone_event(v, id, ZoneStatus::Triggered).0 == (match v.1[id].0 {
            ZoneKind::Delay => State::EntryDelay,
            ZoneKind::Instant => State::Triggered,
        }),
        after_zone_event(v, id, ZoneStatus::Triggered).1[id] == (v.1[id].0, ZoneStatus::Triggered),
{
}

/// Registering a new zone records it clear, with the kind asked for, and
/// touches neither the arming state nor any other zone.
pub proof fn law_add_zone_registers_clear_zone(v: AlarmModel, id: u32, kind: ZoneKind, k: u32)
    requires
        !v.1.contains_key(id),
    ensures
        after_add_zone(v, id, kind).0 == v.0,
        after_add_zone(v, id, kind).1[id] == (kind, ZoneStatus::Clear),
        k != id ==> after_add_zone(v, id, kind).1.contains_key(k) == v.1.contains_key(k),
        k != id && v.1.contains_key(k) ==> after_add_zone(v, id, kind).1[k] == v.1[k],
{
}

/// A zone still triggered when the exit delay ends keeps the alarm in the
/// exit delay; with no zone at all, the exit delay always ends armed.
pub proof fn law_triggered_zone_blocks_arming(v: AlarmModel, k: u32)
    requires
        v.0 == State::ExitDelay,
    ensures
        v.1.contains_key(k) && v.1[k].1 == ZoneStatus::Triggered ==> after_exit_delay(v) == v,
        v.1.dom().is_empty() ==> after_exit_delay(v) == (State::Armed, v.1),
{
    if v.1.dom().is_empty() {
        assert forall|id: u32| #[trigger] v.1.contains_key(id) implies v.1[id].1
            == ZoneStatus::Clear by {
            assert(v.1.dom().contains(id));
        }
    }
}

/// Completing a delay does nothing outside that delay: the exit delay only
/// from `ExitDelay`, the entry delay only from `EntryDelay`.
pub proof fn law_delays_complete_only_from_their_state(v: AlarmModel)
    ensures
        v.0 != State::ExitDelay ==> after_exit_delay(v) == v,
        v.0 != State::EntryDelay ==> after_entry_delay(v) == v,
        v.0 == State::EntryDelay ==> after_entry_delay(v) == (State::Triggered, v.1),
{
}

/// Only a registered, clear zone is removed, and nothing else changes; a
/// triggered zone stays registered as it was.
pub proof fn law_remove_takes_only_clear_zones(v: AlarmModel, id: u32, k: u32)
    ensures
        after_remove_zone(v, id).0 == v.0,
        v.1.contains_key(id) && v.1[id].1 == ZoneStatus::Clear ==> !after_remove_zone(
            v,
            id,
        ).1.contains_key(id),
        v.1.contains_key(id) && v.1[id].1 == ZoneStatus::Triggered ==> after_remove_zone(v, id)
            == v,
        !v.1.contains_key(id) ==> after_remove_zone(v, id) == v,
        k != id ==> after_remove_zone(v, id).1.contains_key(k) == v.1.contains_key(k),
        k != id && v.1.contains_key(k) ==> after_remove_zone(v, id).1[k] == v.1[k],
{
}

/// A report from an unregistered zone changes nothing.
pub proof fn law_unknown_zone_report_changes_nothing(v: AlarmModel, id: u32, status: ZoneStatus)
    requires
        !v.1.contains_key(id),
    ensures
        after_zone_event(v, id, status) == v,
{
}

} // verus!
