//! The decisions the HTTP API makes around the alarm and its storage: how
//! states and zones are named on the wire and in the database, which error
//! each failed request is answered with, and how stored zones are replayed.

use crate::alarm::{
    after_add_zone, after_arm, after_remove_zone, Alarm, AlarmModel, RemoveZoneError, State,
    ZoneAlreadyExistsError, ZoneKind, ZoneStatus,
};
use crate::text::str_eq;
use vstd::prelude::*;

verus! {

/// The wire name of an alarm state.
pub open spec fn state_name(state: State) -> Seq<char> {
    match state {
        State::Disarmed => "Disarmed"@,
        State::ExitDelay => "ExitDelay"@,
        State::Armed => "Armed"@,
        State::EntryDelay => "EntryDelay"@,
        State::Triggered => "Triggered"@,
    }
}

/// The wire and database name of a zone kind.
pub open spec fn zone_kind_name(kind: ZoneKind) -> Seq<char> {
    match kind {
        ZoneKind::Delay => "Delay"@,
        ZoneKind::Instant => "Instant"@,
    }
}

/// The wire name of a zone status.
pub open spec fn zone_status_name(status: ZoneStatus) -> Seq<char> {
    match status {
        ZoneStatus::Clear => "Clear"@,
        ZoneStatus::Triggered => "Triggered"@,
    }
}

/// The zone kind a name stands for, if any.
pub open spec fn zone_kind_named(name: Seq<char>) -> Option<ZoneKind> {
    if name == "Delay"@ {
        Some(ZoneKind::Delay)
    } else if name == "Instant"@ {
        Some(ZoneKind::Instant)
    } else {
        None
    }
}

pub fn state_to_str(state: State) -> (name: &'static str)
    ensures
        name@ == state_name(state),
{
    match state {
        State::Disarmed => "Disarmed",
        State::ExitDelay => "ExitDelay",
        State::Armed => "Armed",
        State::EntryDelay => "EntryDelay",
        State::Triggered => "Triggered",
    }
}

pub fn zone_kind_to_str(kind: ZoneKind) -> (name: &'static str)
    ensures
        name@ == zone_kind_name(kind),
{
    match kind {
        ZoneKind::Delay => "Delay",
        ZoneKind::Instant => "Instant",
    }
}

pub fn zone_status_to_str(status: ZoneStatus) -> (name: &'static str)
    ensures
        name@ == zone_status_name(status),
{
    match status {
        ZoneStatus::Clear => "Clear",
        ZoneStatus::Triggered => "Triggered",
    }
}

/// A zone kind name that is neither `Delay` nor `Instant`.
#[derive(Debug, PartialEq, Eq)]
pub struct UnknownZoneKind(pub String);

/// Reads a zone kind from its name.
pub fn parse_zone_kind(raw: &str) -> (kind: Result<ZoneKind, UnknownZoneKind>)
    ensures
        match kind {
            Ok(k) => zone_kind_named(raw@) == Some(k),
            Err(UnknownZoneKind(name)) => zone_kind_named(raw@) is None && name@ == raw@,
        },
{
    if str_eq(raw, "Delay") {
        Ok(ZoneKind::Delay)
    } else if str_eq(raw, "Instant") {
        Ok(ZoneKind::Instant)
    } else {
        Err(UnknownZoneKind(String::from_str(raw)))
    }
}

/// Zone kinds read back as the kind whose name was written.
pub proof fn law_zone_kind_name_round_trips(kind: ZoneKind)
    ensures
        zone_kind_named(zone_kind_name(kind)) == Some(kind),
{
    reveal_strlit("Delay");
    reveal_strlit("Instant");
    assert("Instant"@.len() != "Delay"@.len());
}

/// The zones stored rows `(id, kind name)` give, in order, or the first
/// kind name that is not a zone kind.
pub open spec fn zones_of_rows(rows: Seq<(i64, String)>) -> Result<
    Seq<(i64, ZoneKind)>,
    Seq<char>,
>
    decreases rows.len(),
{
    if rows.len() == 0 {
        Ok(Seq::empty())
    } else {
        match zone_kind_named(rows[0].1@) {
            None => Err(rows[0].1@),
            Some(kind) => match zones_of_rows(rows.drop_first()) {
                Ok(rest) => Ok(seq![(rows[0].0, kind)] + rest),
                Err(name) => Err(name),
            },
        }
    }
}

/// Reads the stored zone rows: each kind name must name a zone kind.
pub fn zones_from_rows(rows: &Vec<(i64, String)>) -> (zones: Result<
    Vec<(i64, ZoneKind)>,
    UnknownZoneKind,
>)
    ensures
        match (zones, zones_of_rows(rows@)) {
            (Ok(z), Ok(expected)) => z@ == expected,
            (Err(UnknownZoneKind(name)), Err(expected)) => name@ == expected,
            _ => false,
        },
{
    let n = rows.len();
    let mut out: Vec<(i64, ZoneKind)> = Vec::new();
    let mut i: usize = 0;
    assert(rows@.skip(0) =~= rows@);
    while i < n
        invariant
            n == rows@.len(),
            i <= n,
            match zones_of_rows(rows@.skip(i as int)) {
                Ok(rest) => zones_of_rows(rows@) == Ok::<Seq<(i64, ZoneKind)>, Seq<char>>(
                    out@ + rest,
                ),
                Err(name) => zones_of_rows(rows@) == Err::<Seq<(i64, ZoneKind)>, Seq<char>>(name),
            },
        decreases n - i,
    {
        let ghost rest = rows@.skip(i as int);
        assert(rest.drop_first() =~= rows@.skip(i + 1));
        assert(rest[0] == rows@[i as int]);
        match parse_zone_kind(rows[i].1.as_str()) {
            Ok(kind) => {
                let ghost before = out@;
                out.push((rows[i].0, kind));
                proof {
                    match zones_of_rows(rows@.skip(i + 1)) {
                        Ok(tail) => {
                            assert(before + (seq![(rows@[i as int].0, kind)] + tail) =~= out@
                                + tail);
                        },
                        Err(_) => {},
                    }
                }
            },
            Err(err) => {
                return Err(err);
            },
        }
        i += 1;
    }
    assert(rows@.skip(n as int) =~= Seq::<(i64, String)>::empty());
    assert(out@ + Seq::<(i64, ZoneKind)>::empty() =~= out@);
    Ok(out)
}

/// Different states, kinds and statuses are told apart by their names on the
/// wire.
pub proof fn law_names_are_distinct(
    a: State,
    b: State,
    ka: ZoneKind,
    kb: ZoneKind,
    sa: ZoneStatus,
    sb: ZoneStatus,
)
    ensures
        state_name(a) == state_name(b) ==> a == b,
        zone_kind_name(ka) == zone_kind_name(kb) ==> ka == kb,
        zone_status_name(sa) == zone_status_name(sb) ==> sa == sb,
{
    reveal_strlit("Disarmed");
    reveal_strlit("ExitDelay");
    reveal_strlit("Armed");
    reveal_strlit("EntryDelay");
    reveal_strlit("Triggered");
    reveal_strlit("Delay");
    reveal_strlit("Instant");
    reveal_strlit("Clear");
    if state_name(a) == state_name(b) && a != b {
        assert(state_name(a).len() == state_name(b).len());
        assert(state_name(a)[0] == state_name(b)[0]);
    }
    if zone_kind_name(ka) == zone_kind_name(kb) && ka != kb {
        assert(zone_kind_name(ka).len() == zone_kind_name(kb).len());
    }
    if zone_status_name(sa) == zone_status_name(sb) && sa != sb {
        assert(zone_status_name(sa).len() == zone_status_name(sb).len());
    }
}

/// How a failed request is answered.
#[derive(Debug, Clone, Copy, PartialEq, Eq)]
pub enum ApiError {
    BadRequest(&'static str),
    Unauthorized(&'static str),
    NotFound,
    Conflict,
    Internal,
}

/// The HTTP status code of an error answer.
pub open spec fn status_code_of(err: ApiError) -> u16 {
    match err {
        ApiError::BadRequest(_) => 400,
        ApiError::Unauthorized(_) => 401,
        ApiError::NotFound => 404,
        ApiError::Conflict => 409,
        ApiError::Internal => 500,
    }
}

impl ApiError {
    pub fn status_code(&self) -> (code: u16)
        ensures
            code == status_code_of(*self),
    {
        match self {
            ApiError::BadRequest(_) => 400,
            ApiError::Unauthorized(_) => 401,
            ApiError::NotFound => 404,
            ApiError::Conflict => 409,
            ApiError::Internal => 500,
        }
    }

    /// The `error` message of the JSON body, for errors that carry one.
    pub fn message(&self) -> (message: Option<&'static str>)
        ensures
            message == (match *self {
                ApiError::BadRequest(m) => Some(m),
                ApiError::Unauthorized(m) => Some(m),
                _ => None,
            }),
    {
        match self {
            ApiError::BadRequest(m) => Some(*m),
            ApiError::Unauthorized(m) => Some(*m),
            _ => None,
        }
    }
}

/// The answer to a failed login, whatever the reason.
pub const INVALID_CREDENTIALS: &'static str = "invalid username or password";

/// Whether a registration may proceed: the first account needs no
/// authentication (the bootstrap); every later one does. On success, tells
/// whether this is the bootstrap registration.
pub fn registration_access(user_count: i64, authenticated: bool) -> (access: Result<
    bool,
    ApiError,
>)
    ensures
        access == (if user_count == 0 {
            Ok::<bool, ApiError>(true)
        } else if authenticated {
            Ok::<bool, ApiError>(false)
        } else {
            Err::<bool, ApiError>(ApiError::Unauthorized("authentication required"))
        }),
{
    let is_bootstrap = user_count == 0;
    if !is_bootstrap && !authenticated {
        return Err(ApiError::Unauthorized("authentication required"));
    }
    Ok(is_bootstrap)
}

/// The answer to a login attempt: `password_matches` is `None` when no
/// account has the username, else whether the password matches its hash.
pub open spec fn login_answer(password_matches: Option<bool>) -> Result<(), ApiError> {
    if password_matches == Some(true) {
        Ok(())
    } else {
        Err(ApiError::Unauthorized(INVALID_CREDENTIALS))
    }
}

/// Checks a login attempt: `password_matches` is `None` when no account has
/// the username, else whether the password matches its hash.
pub fn check_credentials(password_matches: Option<bool>) -> (checked: Result<(), ApiError>)
    ensures
        checked == login_answer(password_matches),
{
    match password_matches {
        Some(true) => Ok(()),
        _ => Err(ApiError::Unauthorized(INVALID_CREDENTIALS)),
    }
}

/// A failed login is answered the same whether the username is unknown or
/// the password is wrong, so the answer does not reveal which accounts exist.
pub proof fn law_login_failures_are_indistinguishable()
    ensures
        login_answer(None) == login_answer(Some(false)),
        login_answer(None) is Err,
{
}

/// Registers a zone requested over the API: a kind name that is not a zone
/// kind is a bad request, and a taken id a conflict. Gives the kind on
/// success.
pub fn create_zone_in_alarm(alarm: &mut Alarm, id: u32, kind: &str) -> (created: Result<
    ZoneKind,
    ApiError,
>)
    requires
        old(alarm).wf(),
    ensures
        final(alarm).wf(),
        match zone_kind_named(kind@) {
            None => created == Err::<ZoneKind, ApiError>(ApiError::BadRequest("invalid zone kind"))
                && final(alarm)@ == old(alarm)@,
            Some(k) => final(alarm)@ == after_add_zone(old(alarm)@, id, k) && created == (if old(
                alarm,
            )@.1.contains_key(id) {
                Err::<ZoneKind, ApiError>(ApiError::Conflict)
            } else {
                Ok::<ZoneKind, ApiError>(k)
            }),
        },
{
    let kind = match parse_zone_kind(kind) {
        Ok(kind) => kind,
        Err(_) => {
            return Err(ApiError::BadRequest("invalid zone kind"));
        },
    };
    match alarm.add_zone(id, kind) {
        Ok(()) => Ok(kind),
        Err(_) => Err(ApiError::Conflict),
    }
}

/// Removes a zone requested over the API: an unknown zone is not found, a
/// triggered one a conflict. Gives the removed zone's kind, so that the
/// removal can be rolled back.
pub fn delete_zone_from_alarm(alarm: &mut Alarm, id: u32) -> (deleted: Result<ZoneKind, ApiError>)
    requires
        old(alarm).wf(),
    ensures
        final(alarm).wf(),
        final(alarm)@ == after_remove_zone(old(alarm)@, id),
        deleted == (if !old(alarm)@.1.contains_key(id) {
            Err::<ZoneKind, ApiError>(ApiError::NotFound)
        } else if old(alarm)@.1[id].1 == ZoneStatus::Triggered {
            Err::<ZoneKind, ApiError>(ApiError::Conflict)
        } else {
            Ok::<ZoneKind, ApiError>(old(alarm)@.1[id].0)
        }),
{
    let zones = alarm.list_zones();
    let n = zones.len();
    let mut kind: Option<ZoneKind> = None;
    let mut i: usize = 0;
    while i < n
        invariant
            n == zones@.len(),
            i <= n,
            kind matches Some(k) ==> old(alarm)@.1.contains_key(id) && old(alarm)@.1[id].0 == k,
            kind is None ==> forall|j: int| 0 <= j < i ==> #[trigger] zones@[j].0 != id,
            crate::alarm::lists_zones(zones@, old(alarm)@.1),
            alarm@ == old(alarm)@,
        decreases n - i,
    {
        if kind.is_none() && zones[i].0 == id {
            assert(old(alarm)@.1.contains_key(zones@[i as int].0));
            kind = Some(zones[i].1);
        }
        i += 1;
    }
    match alarm.remove_zone(id) {
        Ok(()) => {},
        Err(RemoveZoneError::UnknownZone(_)) => {
            return Err(ApiError::NotFound);
        },
        Err(RemoveZoneError::ZoneTriggered(_)) => {
            return Err(ApiError::Conflict);
        },
    }
    match kind {
        Some(kind) => Ok(kind),
        None => {
            proof {
                let j = choose|j: int| 0 <= j < zones@.len() && #[trigger] zones@[j].0 == id;
                assert(zones@[j].0 != id);
            }
            Err(ApiError::Internal)
        },
    }
}

/// Arms the alarm on request: arming from any state but `Disarmed` is a
/// conflict. Gives the new state.
pub fn arm_alarm(alarm: &mut Alarm) -> (armed: Result<State, ApiError>)
    requires
        old(alarm).wf(),
    ensures
        final(alarm).wf(),
        final(alarm)@ == after_arm(old(alarm)@),
        armed == (if old(alarm)@.0 == State::Disarmed {
            Ok::<State, ApiError>(State::ExitDelay)
        } else {
            Err::<State, ApiError>(ApiError::Conflict)
        }),
{
    match alarm.arm() {
        Ok(()) => Ok(alarm.state()),
        Err(_) => Err(ApiError::Conflict),
    }
}

/// Registering stored zones in order, ids truncated to `u32`, up to the
/// first id that is already registered: the alarm after the rows that were
/// registered, and whether every row was.
pub open spec fn replay_of(v: AlarmModel, rows: Seq<(i64, ZoneKind)>) -> (AlarmModel, bool)
    decreases rows.len(),
{
    if rows.len() == 0 {
        (v, true)
    } else if v.1.contains_key(rows[0].0 as u32) {
        (v, false)
    } else {
        replay_of(after_add_zone(v, rows[0].0 as u32, rows[0].1), rows.drop_first())
    }
}

proof fn lemma_replay_keeps_registered(v: AlarmModel, rows: Seq<(i64, ZoneKind)>, k: u32)
    ensures
        replay_of(v, rows).0.0 == v.0,
        v.1.contains_key(k) ==> replay_of(v, rows).0.1.contains_key(k) && replay_of(v, rows).0.1[k]
            == v.1[k],
    decreases rows.len(),
{
    if rows.len() > 0 && !v.1.contains_key(rows[0].0 as u32) {
        lemma_replay_keeps_registered(
            after_add_zone(v, rows[0].0 as u32, rows[0].1),
            rows.drop_first(),
            k,
        );
    }
}

/// Replaying stored zones whose ids are distinct and not yet registered
/// registers every one of them, clear, with its stored kind, and leaves the
/// arming state as it was.
pub proof fn law_replay_registers_every_stored_zone(
    v: AlarmModel,
    rows: Seq<(i64, ZoneKind)>,
    i: int,
)
    requires
        forall|a: int, b: int|
            #![trigger rows[a], rows[b]]
            0 <= a < b < rows.len() ==> rows[a].0 as u32 != rows[b].0 as u32,
        forall|a: int| 0 <= a < rows.len() ==> !v.1.contains_key(#[trigger] rows[a].0 as u32),
        0 <= i < rows.len(),
    ensures
        replay_of(v, rows).1,
        replay_of(v, rows).0.0 == v.0,
        replay_of(v, rows).0.1.contains_key(rows[i].0 as u32),
        replay_of(v, rows).0.1[rows[i].0 as u32] == (rows[i].1, ZoneStatus::Clear),
    decreases rows.len(),
{
    let id0 = rows[0].0 as u32;
    let w = after_add_zone(v, id0, rows[0].1);
    let rest = rows.drop_first();
    assert(!v.1.contains_key(id0));
    assert forall|a: int, b: int|
        #![trigger rest[a], rest[b]]
        0 <= a < b < rest.len() implies rest[a].0 as u32 != rest[b].0 as u32 by {
        assert(rest[a] == rows[a + 1] && rest[b] == rows[b + 1]);
    }
    assert forall|a: int| 0 <= a < rest.len() implies !w.1.contains_key(#[trigger] rest[a].0 as u32) by {
        assert(rest[a] == rows[a + 1]);
        assert(rows[0].0 as u32 != rows[a + 1].0 as u32);
    }
    lemma_replay_keeps_registered(w, rest, id0);
    if rest.len() > 0 {
        law_replay_registers_every_stored_zone(w, rest, 0);
    } else {
        assert(replay_of(w, rest) == (w, true));
    }
    if i > 0 {
        assert(rest[i - 1] == rows[i]);
        law_replay_registers_every_stored_zone(w, rest, i - 1);
    }
}

/// Rebuilds in-memory zone registration from stored `(id, kind)` rows. Stops
/// at the first id that is already registered, with the rows before it
/// registered.
pub fn replay_zones(alarm: &mut Alarm, rows: &Vec<(i64, ZoneKind)>) -> (replay: Result<
    (),
    ZoneAlreadyExistsError,
>)
    requires
        old(alarm).wf(),
    ensures
        final(alarm).wf(),
        final(alarm)@ == replay_of(old(alarm)@, rows@).0,
        replay is Ok <==> replay_of(old(alarm)@, rows@).1,
{
    let n = rows.len();
    let mut i: usize = 0;
    assert(rows@.skip(0) =~= rows@);
    while i < n
        invariant
            n == rows@.len(),
            i <= n,
            alarm.wf(),
            replay_of(alarm@, rows@.skip(i as int)) == replay_of(old(alarm)@, rows@),
        decreases n - i,
    {
        let ghost rest = rows@.skip(i as int);
        assert(rest.drop_first() =~= rows@.skip(i + 1));
        assert(rest[0] == rows@[i as int]);
        let (id, kind) = rows[i];
        let result = alarm.add_zone(id as u32, kind);
        if result.is_err() {
            return result;
        }
        i += 1;
    }
    assert(rows@.skip(n as int) =~= Seq::<(i64, ZoneKind)>::empty());
    Ok(())
}

/// A stored SIA configuration counts only when all three of its columns are
/// set.
pub fn complete_sia_config(
    account: Option<String>,
    prefix: Option<String>,
    receiver_addr: Option<String>,
) -> (config: Option<(String, String, String)>)
    ensures
        match config {
            Some((a, p, r)) => account == Some(a) && prefix == Some(p) && receiver_addr == Some(r),
            None => account is None || prefix is None || receiver_addr is None,
        },
{
    match (account, prefix, receiver_addr) {
        (Some(account), Some(prefix), Some(receiver_addr)) => Some((account, prefix, receiver_addr)),
        _ => None,
    }
}

/// Whether a sensor may be mapped to `zone_id`: only to a registered zone.
pub fn check_mapping_zone(alarm: &Alarm, zone_id: u32) -> (checked: Result<(), ApiError>)
    requires
        alarm.wf(),
    ensures
        checked == (if alarm@.1.contains_key(zone_id) {
            Ok::<(), ApiError>(())
        } else {
            Err::<(), ApiError>(ApiError::BadRequest("zone does not exist"))
        }),
{
    match alarm.zone_status(zone_id) {
        Some(_) => Ok(()),
        None => Err(ApiError::BadRequest("zone does not exist")),
    }
}

/// The JSON text a state is pushed to a live client as: `{"state":"<name>"}`.
pub open spec fn state_message_of(state: State) -> Seq<char> {
    "{\"state\":\""@ + state_name(state) + "\"}"@
}

/// Renders the message that tells a live client the alarm's state.
pub fn state_message(state: State) -> (message: String)
    ensures
        message@ == state_message_of(state),
{
    let mut message = String::from_str("{\"state\":\"");
    message.append(state_to_str(state));
    message.append("\"}");
    message
}

/// A zone as the API lists it.
pub struct ZoneResponse {
    pub id: u32,
    pub kind: String,
    pub status: String,
}

/// Whether `r` describes `zone`, by id and by the names of its kind and
/// status.
pub open spec fn describes_zone(r: ZoneResponse, zone: (u32, ZoneKind, ZoneStatus)) -> bool {
    &&& r.id == zone.0
    &&& r.kind@ == zone_kind_name(zone.1)
    &&& r.status@ == zone_status_name(zone.2)
}

/// The API's listing of `zones`, in the same order.
pub fn zone_responses(zones: &Vec<(u32, ZoneKind, ZoneStatus)>) -> (listed: Vec<ZoneResponse>)
    ensures
        listed@.len() == zones@.len(),
        forall|i: int| 0 <= i < zones@.len() ==> #[trigger] describes_zone(listed@[i], zones@[i]),
{
    let n = zones.len();
    let mut listed: Vec<ZoneResponse> = Vec::new();
    let mut i: usize = 0;
    while i < n
        invariant
            n == zones@.len(),
            i <= n,
            listed@.len() == i,
            forall|j: int| 0 <= j < i ==> #[trigger] describes_zone(listed@[j], zones@[j]),
        decreases n - i,
    {
        let (id, kind, status) = zones[i];
        listed.push(
            ZoneResponse {
                id,
                kind: String::from_str(zone_kind_to_str(kind)),
                status: String::from_str(zone_status_to_str(status)),
            },
        );
        i += 1;
    }
    listed
}

/// The alarm's state as the API reports it.
pub struct StateResponse {
    pub state: String,
}

/// Reports `state` by its name.
pub fn state_response(state: State) -> (response: StateResponse)
    ensures
        response.state@ == state_name(state),
{
    StateResponse { state: String::from_str(state_to_str(state)) }
}

/// A sensor mapping as the API lists it.
pub struct SensorMappingResponse {
    pub sensor_id: String,
    pub zone_id: u32,
}

/// The API's listing of `(sensor_id, zone_id)` mappings, in the same order.
pub fn sensor_mapping_responses(mappings: &Vec<(String, u32)>) -> (listed: Vec<
    SensorMappingResponse,
>)
    ensures
        listed@.len() == mappings@.len(),
        forall|i: int|
            0 <= i < mappings@.len() ==> #[trigger] listed@[i].sensor_id == mappings@[i].0
                && listed@[i].zone_id == mappings@[i].1,
{
    let n = mappings.len();
    let mut listed: Vec<SensorMappingResponse> = Vec::new();
    let mut i: usize = 0;
    while i < n
        invariant
            n == mappings@.len(),
            i <= n,
            listed@.len() == i,
            forall|j: int|
                0 <= j < i ==> #[trigger] listed@[j].sensor_id == mappings@[j].0 && listed@[j].zone_id
                    == mappings@[j].1,
        decreases n - i,
    {
        listed.push(
            SensorMappingResponse { sensor_id: mappings[i].0.clone(), zone_id: mappings[i].1 },
        );
        i += 1;
    }
    listed
}

/// The SIA configuration as the API reports it: all three fields, or none
/// when the configuration is incomplete.
pub struct SiaConfigResponse {
    pub account: Option<String>,
    pub prefix: Option<String>,
    pub receiver_addr: Option<String>,
}

/// Reports a stored SIA configuration.
pub fn sia_config_response(config: Option<(String, String, String)>) -> (response:
    SiaConfigResponse)
    ensures
        match config {
            Some((a, p, r)) => response.account == Some(a) && response.prefix == Some(p)
                && response.receiver_addr == Some(r),
            None => response.account is None && response.prefix is None
                && response.receiver_addr is None,
        },
{
    match config {
        Some((account, prefix, receiver_addr)) => SiaConfigResponse {
            account: Some(account),
            prefix: Some(prefix),
            receiver_addr: Some(receiver_addr),
        },
        None => SiaConfigResponse { account: None, prefix: None, receiver_addr: None },
    }
}

} // verus!
