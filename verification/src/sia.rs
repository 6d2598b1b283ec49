//! What an alarm state change is reported as to a SIA DC-09 monitoring
//! center: which zone, and the event code naming it.

use crate::alarm::{State, ZoneKind, ZoneStatus};
use crate::auth::lemma_decimal_digits;
use crate::text::{
    all_digits, decimal, digits_value, is_digit, lemma_leading_zeros, parse_u64,
    push_decimal_padded, zero_padded,
};
use vstd::prelude::*;

verus! {

/// The first triggered zone of a zone list, in list order.
pub open spec fn first_triggered_zone(zones: Seq<(u32, ZoneKind, ZoneStatus)>) -> Option<u32>
    decreases zones.len(),
{
    if zones.len() == 0 {
        None
    } else if zones[0].2 == ZoneStatus::Triggered {
        Some(zones[0].0)
    } else {
        first_triggered_zone(zones.drop_first())
    }
}

/// The zone a state change is reported for: only a change to `Triggered`
/// is reported, and for the first triggered zone.
pub open spec fn reported_zone(state: State, zones: Seq<(u32, ZoneKind, ZoneStatus)>) -> Option<
    u32,
> {
    if state == State::Triggered {
        first_triggered_zone(zones)
    } else {
        None
    }
}

/// The zone a state change is reported for: only a change to `Triggered`
/// is reported, and for the first triggered zone.
pub fn zone_to_report(state: State, zones: &[(u32, ZoneKind, ZoneStatus)]) -> (zone: Option<u32>)
    ensures
        zone == reported_zone(state, zones@),
{
    if state != State::Triggered {
        return None;
    }
    let n = zones.len();
    let mut i: usize = 0;
    assert(zones@.skip(0) =~= zones@);
    while i < n
        invariant
            state == State::Triggered,
            n == zones@.len(),
            i <= n,
            first_triggered_zone(zones@) == first_triggered_zone(zones@.skip(i as int)),
        decreases n - i,
    {
        assert(zones@.skip(i as int).drop_first() =~= zones@.skip(i + 1));
        if zones[i].2 == ZoneStatus::Triggered {
            return Some(zones[i].0);
        }
        i += 1;
    }
    None
}

/// The SIA event code for a burglary alarm (`NBA`) in a zone: the zone
/// number in decimal, zero-padded to four digits.
pub open spec fn event_code_of(zone_id: u32) -> Seq<char> {
    "NBA"@ + zero_padded(decimal(zone_id as nat), 4)
}

proof fn lemma_decimal_len(n: nat)
    ensures
        n < 10 ==> decimal(n).len() == 1,
        n < 100 ==> decimal(n).len() <= 2,
        n < 1000 ==> decimal(n).len() <= 3,
        n < 10000 ==> decimal(n).len() <= 4,
    decreases n,
{
    if n >= 10 {
        lemma_decimal_len(n / 10);
    }
}

/// An event code is `NBA` followed by digits that read back as the zone
/// number, and for zones below 10000 it is exactly seven characters long.
pub proof fn law_event_code_names_its_zone(zone_id: u32)
    ensures
        event_code_of(zone_id).take(3) == "NBA"@,
        parse_u64(event_code_of(zone_id).skip(3)) == Some(zone_id as u64),
        zone_id < 10000 ==> event_code_of(zone_id).len() == 7,
{
    reveal_strlit("NBA");
    let d = decimal(zone_id as nat);
    lemma_decimal_digits(zone_id as nat);
    lemma_decimal_len(zone_id as nat);
    let body = zero_padded(d, 4);
    assert(event_code_of(zone_id).take(3) =~= "NBA"@);
    assert(event_code_of(zone_id).skip(3) =~= body);
    if d.len() < 4 {
        let z = (4 - d.len()) as nat;
        lemma_leading_zeros(z, d);
        assert forall|i: int| 0 <= i < body.len() implies #[trigger] is_digit(body[i]) by {
            if i >= z {
                assert(body[i] == d[i - z]);
            }
        }
        assert(body[0] == '0');
    }
    assert(all_digits(body));
    assert(digits_value(body) == zone_id);
}

/// Renders the SIA event code for a burglary alarm in `zone_id`.
pub fn event_code(zone_id: u32) -> (code: String)
    ensures
        code@ == event_code_of(zone_id),
{
    let mut code = String::from_str("NBA");
    push_decimal_padded(&mut code, zone_id as u64, 4);
    code
}

/// The event code to send for a state change, if it is to be reported.
pub fn event_code_for_state_change(state: State, zones: &[(u32, ZoneKind, ZoneStatus)]) -> (code:
    Option<String>)
    ensures
        match (code, reported_zone(state, zones@)) {
            (Some(c), Some(zone)) => c@ == event_code_of(zone),
            (None, None) => true,
            _ => false,
        },
{
    match zone_to_report(state, zones) {
        Some(zone) => Some(event_code(zone)),
        None => None,
    }
}

proof fn lemma_first_triggered_zone(zones: Seq<(u32, ZoneKind, ZoneStatus)>)
    ensures
        first_triggered_zone(zones) matches Some(z) ==> exists|i: int|
            0 <= i < zones.len() && #[trigger] zones[i].0 == z && zones[i].2 == ZoneStatus::Triggered,
        (forall|i: int| 0 <= i < zones.len() ==> #[trigger] zones[i].2 != ZoneStatus::Triggered)
            ==> first_triggered_zone(zones) is None,
    decreases zones.len(),
{
    if zones.len() > 0 {
        let rest = zones.drop_first();
        lemma_first_triggered_zone(rest);
        assert forall|i: int| 0 <= i < rest.len() implies #[trigger] rest[i] == zones[i + 1] by {}
        if zones[0].2 != ZoneStatus::Triggered {
            if first_triggered_zone(rest) is Some {
                let z = first_triggered_zone(rest)->0;
                let i = choose|i: int|
                    0 <= i < rest.len() && #[trigger] rest[i].0 == z && rest[i].2
                        == ZoneStatus::Triggered;
                assert(zones[i + 1] == rest[i]);
            }
        }
    }
}

/// On a state change (`on_state_change` of the SIA DC-09 integration), an
/// event is reported only when the alarm is triggered and some zone is
/// triggered, and then for a triggered zone: otherwise no event code is made
/// and nothing goes to the monitoring center.
pub proof fn law_on_state_change_reports_only_triggered_zones(
    state: State,
    zones: Seq<(u32, ZoneKind, ZoneStatus)>,
)
    ensures
        (state != State::Triggered || forall|i: int|
            0 <= i < zones.len() ==> #[trigger] zones[i].2 != ZoneStatus::Triggered)
            ==> reported_zone(state, zones) is None,
        reported_zone(state, zones) matches Some(z) ==> state == State::Triggered && exists|i: int|
            0 <= i < zones.len() && #[trigger] zones[i].0 == z && zones[i].2 == ZoneStatus::Triggered,
{
    lemma_first_triggered_zone(zones);
}

/// The environment variable holding the monitoring account number.
pub const ACCOUNT_ENV: &'static str = "TALOS_SIA_ACCOUNT";

/// The environment variable holding the account prefix.
pub const PREFIX_ENV: &'static str = "TALOS_SIA_PREFIX";

/// The environment variable holding the receiver's `host:port`.
pub const RECEIVER_ADDR_ENV: &'static str = "TALOS_SIA_RECEIVER_ADDR";

/// The account prefix when none is configured.
pub const DEFAULT_PREFIX: &'static str = "0";

/// Where and as whom events are reported.
pub struct SiaSettings {
    pub account_number: String,
    pub prefix: String,
    pub receiver_addr: String,
}

/// A required environment variable is unset; holds its name.
#[derive(Debug, Clone, Copy, PartialEq, Eq)]
pub struct MissingEnv(pub &'static str);

/// Gathers the reporting settings from the values of the environment
/// variables (`None` when unset): the account number and the receiver
/// address are required, checked in that order; the prefix defaults to
/// `"0"`.
pub fn settings_from_env(
    account_number: Option<String>,
    prefix: Option<String>,
    receiver_addr: Option<String>,
) -> (settings: Result<SiaSettings, MissingEnv>)
    ensures
        account_number is None ==> settings == Err::<SiaSettings, MissingEnv>(
            MissingEnv(ACCOUNT_ENV),
        ),
        account_number is Some && receiver_addr is None ==> settings == Err::<
            SiaSettings,
            MissingEnv,
        >(MissingEnv(RECEIVER_ADDR_ENV)),
        settings matches Ok(s) ==> account_number == Some(s.account_number) && receiver_addr
            == Some(s.receiver_addr) && s.prefix@ == (match prefix {
            Some(p) => p@,
            None => DEFAULT_PREFIX@,
        }),
        (account_number is Some && receiver_addr is Some) ==> settings is Ok,
{
    let account_number = match account_number {
        Some(a) => a,
        None => {
            return Err(MissingEnv(ACCOUNT_ENV));
        },
    };
    let prefix = match prefix {
        Some(p) => p,
        None => String::from_str(DEFAULT_PREFIX),
    };
    let receiver_addr = match receiver_addr {
        Some(r) => r,
        None => {
            return Err(MissingEnv(RECEIVER_ADDR_ENV));
        },
    };
    Ok(SiaSettings { account_number, prefix, receiver_addr })
}

} // verus!
