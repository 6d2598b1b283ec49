//! Decoding BTHome v2 sensor readings out of raw BLE advertisements.

use crate::alarm::{State, ZoneKind, ZoneStatus};
use crate::sensors::{Actionneur, Reading};
use base64::Engine;
use btsensor::bthome::v2::{BtHomeV2, Element};
use vstd::prelude::*;

verus! {

/// The Shelly BLE gateway integration. It reads sensors and drives nothing,
/// so it takes no action on alarm state changes.
pub struct ShellyModule;

impl Actionneur for ShellyModule {
    fn on_state_change(&mut self, _state: State, _zones: &[(u32, ZoneKind, ZoneStatus)]) {
    }
}

/// The Service Data - 16-bit UUID AD structure type.
pub const SERVICE_DATA_16BIT_UUID: u8 = 0x16u8;

/// The BTHome v2 service UUID as big-endian bytes: the 16-bit alias 0xFCD2
/// in the Bluetooth base UUID.
pub open spec fn bthome_v2_uuid() -> Seq<u8> {
    seq![
        0x00u8, 0x00, 0xfc, 0xd2, 0x00, 0x00, 0x10, 0x00,
        0x80, 0x00, 0x00, 0x80, 0x5f, 0x9b, 0x34, 0xfb,
    ]
}

/// `btsensor::bthome::v2::UUID.as_bytes()`: the BTHome v2 service UUID,
/// which btsensor defines as the 16-bit alias 0xFCD2 filled into the
/// Bluetooth base UUID 0000xxxx-0000-1000-8000-00805F9B34FB.
#[verifier::external_body]
fn bthome_v2_uuid_bytes() -> (bytes: [u8; 16])
    ensures
        bytes@ == bthome_v2_uuid(),
{
    *btsensor::bthome::v2::UUID.as_bytes()
}

/// The BTHome v2 UUID alias in the little-endian order it takes on the wire:
/// bytes 2..4 of the 128-bit UUID, swapped.
pub open spec fn bthome_uuid_le() -> (u8, u8) {
    (bthome_v2_uuid()[3], bthome_v2_uuid()[2])
}

/// Whether an AD structure (type byte then data) is BTHome v2 service data.
pub open spec fn is_bthome_structure(structure: Seq<u8>) -> bool {
    &&& structure.len() >= 3
    &&& structure[0] == SERVICE_DATA_16BIT_UUID
    &&& (structure[1], structure[2]) == bthome_uuid_le()
}

/// The BTHome v2 service data in a raw advertisement: the advertisement is
/// a sequence of AD structures (one length byte, then that many bytes: a
/// type byte and data); the result is the data, after its UUID, of the first
/// Service Data - 16-bit UUID structure whose UUID is BTHome's. A zero length
/// byte or a structure running past the end ends the search with nothing.
pub open spec fn service_data_of(raw: Seq<u8>) -> Option<Seq<u8>>
    decreases raw.len(),
{
    if raw.len() == 0 {
        None
    } else {
        let len = raw[0] as int;
        let tail = raw.drop_first();
        if len == 0 || tail.len() < len {
            None
        } else if is_bthome_structure(tail.take(len)) {
            Some(tail.take(len).skip(3))
        } else {
            service_data_of(tail.skip(len))
        }
    }
}

/// The service data found is confined to its own AD structure: whatever
/// bytes follow the advertisement (further AD structures), the same data is
/// found.
pub proof fn law_service_data_confined_to_its_structure(raw: Seq<u8>, extra: Seq<u8>)
    requires
        service_data_of(raw) is Some,
    ensures
        service_data_of(raw + extra) == service_data_of(raw),
    decreases raw.len(),
{
    let r = raw + extra;
    let len = raw[0] as int;
    let tail = raw.drop_first();
    assert(r[0] == raw[0]);
    assert(r.drop_first() =~= tail + extra);
    assert((tail + extra).take(len) =~= tail.take(len));
    if !is_bthome_structure(tail.take(len)) {
        assert((tail + extra).skip(len) =~= tail.skip(len) + extra);
        law_service_data_confined_to_its_structure(tail.skip(len), extra);
    }
}

/// The service data found lies inside the advertisement: it is at least
/// four bytes (length, type and UUID) shorter.
pub proof fn law_service_data_within_advertisement(raw: Seq<u8>)
    requires
        service_data_of(raw) is Some,
    ensures
        service_data_of(raw)->0.len() + 4 <= raw.len(),
    decreases raw.len(),
{
    let len = raw[0] as int;
    let tail = raw.drop_first();
    if !is_bthome_structure(tail.take(len)) {
        law_service_data_within_advertisement(tail.skip(len));
    }
}

/// On the wire, BTHome's UUID alias 0xFCD2 comes low byte first.
pub proof fn law_bthome_uuid_on_the_wire()
    ensures
        bthome_uuid_le() == (0xd2u8, 0xfcu8),
{
}

/// An advertisement whose first AD structure is BTHome service data gives
/// exactly that structure's data, whatever follows it.
pub proof fn law_first_bthome_structure_gives_its_data(data: Seq<u8>, rest: Seq<u8>)
    requires
        data.len() + 3 <= 255,
    ensures
        service_data_of(seq![(data.len() + 3) as u8, 0x16u8, 0xd2u8, 0xfcu8] + data + rest) == Some(
            data,
        ),
{
    let raw = seq![(data.len() + 3) as u8, 0x16u8, 0xd2u8, 0xfcu8] + data + rest;
    let len = (data.len() + 3) as int;
    let tail = raw.drop_first();
    assert(tail.take(len) =~= seq![0x16u8, 0xd2u8, 0xfcu8] + data);
    assert(tail.take(len).skip(3) =~= data);
}

/// Finds the BTHome v2 service data in a raw BLE advertisement payload.
pub fn bthome_service_data<'a>(raw: &'a [u8]) -> (data: Option<&'a [u8]>)
    ensures
        match data {
            Some(d) => service_data_of(raw@) == Some(d@),
            None => service_data_of(raw@) is None,
        },
{
    let uuid = bthome_v2_uuid_bytes();
    let uuid_lo = uuid[3];
    let uuid_hi = uuid[2];
    let mut rest = raw;
    while rest.len() > 0
        invariant
            service_data_of(raw@) == service_data_of(rest@),
            (uuid_lo, uuid_hi) == bthome_uuid_le(),
        decreases rest.len(),
    {
        let len = rest[0] as usize;
        let (_, tail) = rest.split_at(1);
        assert(tail@ == rest@.drop_first());
        if len == 0 || tail.len() < len {
            return None;
        }
        let (structure, after) = tail.split_at(len);
        assert(structure@ == tail@.take(len as int));
        assert(after@ == tail@.skip(len as int));
        if structure.len() >= 3 && structure[0] == SERVICE_DATA_16BIT_UUID && structure[1] == uuid_lo
            && structure[2] == uuid_hi {
            let (_, payload) = structure.split_at(3);
            assert(payload@ == structure@.skip(3));
            return Some(payload);
        }
        rest = after;
    }
    None
}


/// The part of a decoded BTHome v2 element that decides a reading: its
/// opening (0x11) or motion (0x21) binary-sensor value, or another property.
#[derive(Debug, Clone, Copy, PartialEq, Eq, Structural)]
pub enum BtHomeElement {
    Open(bool),
    MotionDetected(bool),
    Other,
}

/// The elements of a decoded BTHome v2 advertisement, with btsensor's
/// human-readable rendering of the whole advertisement.
pub struct BtHomeDecoded {
    pub elements: Vec<BtHomeElement>,
    pub summary: String,
}

/// Why a payload could not be turned into a reading.
#[derive(Debug, PartialEq, Eq)]
pub enum DecodeError {
    /// The payload is not valid base64; holds base64's description.
    InvalidBase64(String),
    /// No BTHome v2 service data among the advertisement's AD structures.
    NoBtHomeServiceData,
    /// btsensor rejected the service data; holds its description.
    BtHomeDecodeFailed(String),
    /// The advertisement has neither an opening nor a motion element; holds
    /// btsensor's rendering of the advertisement.
    NoOpeningOrMotion(String),
}

impl DecodeError {
    /// The human-readable description of the error.
    pub fn message(&self) -> (text: String)
        ensures
            text@ == (match self {
                DecodeError::InvalidBase64(detail) => "invalid base64: "@ + detail@,
                DecodeError::NoBtHomeServiceData => "no BTHome v2 service data in payload"@,
                DecodeError::BtHomeDecodeFailed(detail) => "BTHome decode failed: "@ + detail@,
                DecodeError::NoOpeningOrMotion(summary) => "no opening or motion element in: "@
                    + summary@,
            }),
    {
        match self {
            DecodeError::InvalidBase64(detail) => {
                let mut text = String::from_str("invalid base64: ");
                text.append(detail.as_str());
                text
            },
            DecodeError::NoBtHomeServiceData => String::from_str(
                "no BTHome v2 service data in payload",
            ),
            DecodeError::BtHomeDecodeFailed(detail) => {
                let mut text = String::from_str("BTHome decode failed: ");
                text.append(detail.as_str());
                text
            },
            DecodeError::NoOpeningOrMotion(summary) => {
                let mut text = String::from_str("no opening or motion element in: ");
                text.append(summary.as_str());
                text
            },
        }
    }
}

/// What base64's standard engine (`base64::engine::general_purpose::STANDARD`)
/// decodes the text to, or the description (its error's `Display`) of why
/// the text is not valid base64.
pub uninterp spec fn base64_standard_decode(text: Seq<char>) -> Result<Seq<u8>, Seq<char>>;

/// What btsensor's `BtHomeV2::decode` gives for BTHome v2 service data: the
/// elements it finds, in order, each reduced to its opening or motion value,
/// with btsensor's rendering (`Display`) of the decoded advertisement; or the
/// description of its error.
pub uninterp spec fn bthome_v2_decode(data: Seq<u8>) -> Result<
    (Seq<BtHomeElement>, Seq<char>),
    Seq<char>,
>;

/// `base64::engine::general_purpose::STANDARD.decode`: the decoded bytes, or
/// the text of base64's error. Both are tied to `base64_standard_decode`.
#[verifier::external_body]
fn decode_base64_standard(text: &str) -> (decoded: Result<Vec<u8>, String>)
    ensures
        match decoded {
            Ok(bytes) => base64_standard_decode(text@) == Ok::<Seq<u8>, Seq<char>>(bytes@),
            Err(e) => base64_standard_decode(text@) == Err::<Seq<u8>, Seq<char>>(e@),
        },
{
    match base64::engine::general_purpose::STANDARD.decode(text) {
        Ok(bytes) => Ok(bytes),
        Err(err) => Err(err.to_string()),
    }
}

/// `btsensor::bthome::v2::BtHomeV2::decode`, each decoded element reduced to
/// its opening or motion value, with the decoded advertisement's rendering;
/// or the text of btsensor's error. Tied to `bthome_v2_decode`. btsensor
/// indexes the first byte, so empty data is excluded.
#[verifier::external_body]
fn decode_bthome_v2(data: &[u8]) -> (decoded: Result<BtHomeDecoded, String>)
    requires
        data@.len() > 0,
    ensures
        match decoded {
            Ok(d) => bthome_v2_decode(data@) == Ok::<(Seq<BtHomeElement>, Seq<char>), Seq<char>>(
                (d.elements@, d.summary@),
            ),
            Err(e) => bthome_v2_decode(data@) == Err::<(Seq<BtHomeElement>, Seq<char>), Seq<char>>(
                e@,
            ),
        },
{
    match BtHomeV2::decode(data) {
        Ok(decoded) => Ok(BtHomeDecoded {
            elements: decoded.elements.iter().map(|element| match element {
                Element::Open(open) => BtHomeElement::Open(*open),
                Element::MotionDetected(motion) => BtHomeElement::MotionDetected(*motion),
                _ => BtHomeElement::Other,
            }).collect(),
            summary: decoded.to_string(),
        }),
        Err(err) => Err(err.to_string()),
    }
}

/// The value of the first opening or motion element, if there is one.
pub open spec fn first_open_or_motion(elements: Seq<BtHomeElement>) -> Option<bool>
    decreases elements.len(),
{
    if elements.len() == 0 {
        None
    } else {
        match elements[0] {
            BtHomeElement::Open(v) => Some(v),
            BtHomeElement::MotionDetected(v) => Some(v),
            BtHomeElement::Other => first_open_or_motion(elements.drop_first()),
        }
    }
}

/// The first opening or motion element decides, whatever other elements
/// come before it or any elements after it; with neither there is none.
pub proof fn law_first_opening_or_motion_decides(
    before: Seq<BtHomeElement>,
    element: BtHomeElement,
    after: Seq<BtHomeElement>,
)
    requires
        forall|i: int| 0 <= i < before.len() ==> #[trigger] before[i] == BtHomeElement::Other,
    ensures
        first_open_or_motion(before + seq![element] + after) == (match element {
            BtHomeElement::Open(v) => Some(v),
            BtHomeElement::MotionDetected(v) => Some(v),
            BtHomeElement::Other => first_open_or_motion(after),
        }),
        first_open_or_motion(before) is None,
    decreases before.len(),
{
    let all = before + seq![element] + after;
    if before.len() == 0 {
        assert(all =~= seq![element] + after);
        assert(all.drop_first() =~= after);
    } else {
        assert(all[0] == before[0]);
        assert(all.drop_first() =~= before.drop_first() + seq![element] + after);
        assert forall|i: int| 0 <= i < before.drop_first().len() implies #[trigger] before.drop_first()[i]
            == BtHomeElement::Other by {
            assert(before.drop_first()[i] == before[i + 1]);
        }
        law_first_opening_or_motion_decides(before.drop_first(), element, after);
    }
}

/// A sensor reporting open or motion reads as triggered, closed or still as
/// normal.
pub proof fn law_reading_follows_the_sensor(triggered: bool)
    ensures
        triggered ==> reading_of(triggered) == Reading::Triggered,
        !triggered ==> reading_of(triggered) == Reading::Normal,
{
}

/// The reading a binary-sensor value stands for.
pub open spec fn reading_of(triggered: bool) -> Reading {
    if triggered {
        Reading::Triggered
    } else {
        Reading::Normal
    }
}

/// Maps the first opening or motion element to a reading.
pub fn reading_from_elements(elements: &Vec<BtHomeElement>) -> (reading: Option<Reading>)
    ensures
        reading == (match first_open_or_motion(elements@) {
            Some(v) => Some(reading_of(v)),
            None => None,
        }),
{
    let n = elements.len();
    let mut i: usize = 0;
    assert(elements@.skip(0) =~= elements@);
    while i < n
        invariant
            n == elements@.len(),
            i <= n,
            first_open_or_motion(elements@) == first_open_or_motion(elements@.skip(i as int)),
        decreases n - i,
    {
        assert(elements@.skip(i as int).drop_first() == elements@.skip(i + 1));
        match elements[i] {
            BtHomeElement::Open(v) => {
                return Some(if v { Reading::Triggered } else { Reading::Normal });
            },
            BtHomeElement::MotionDetected(v) => {
                return Some(if v { Reading::Triggered } else { Reading::Normal });
            },
            BtHomeElement::Other => {},
        }
        i += 1;
    }
    None
}

/// Whether the service data of an advertisement can be handed to btsensor:
/// btsensor panics on empty service data.
pub open spec fn advertisement_decodable(raw: Seq<u8>) -> bool {
    service_data_of(raw) != Some(Seq::<u8>::empty())
}

/// The outcome of decoding an advertisement.
pub open spec fn advertisement_outcome_matches(
    raw: Seq<u8>,
    outcome: Result<Reading, DecodeError>,
) -> bool {
    match service_data_of(raw) {
        None => outcome == Err::<Reading, DecodeError>(DecodeError::NoBtHomeServiceData),
        Some(data) => match bthome_v2_decode(data) {
            Err(text) => outcome matches Err(DecodeError::BtHomeDecodeFailed(e)) && e@ == text,
            Ok((elements, summary)) => match first_open_or_motion(elements) {
                None => outcome matches Err(DecodeError::NoOpeningOrMotion(e)) && e@ == summary,
                Some(v) => outcome == Ok::<Reading, DecodeError>(reading_of(v)),
            },
        },
    }
}

/// Decodes a raw BLE advertisement into an alarm reading: finds the BTHome
/// v2 service data among its AD structures, decodes it, and maps its opening
/// or motion binary sensor, whichever comes first, to a reading.
pub fn reading_from_advertisement(raw: &[u8]) -> (outcome: Result<Reading, DecodeError>)
    requires
        advertisement_decodable(raw@),
    ensures
        advertisement_outcome_matches(raw@, outcome),
{
    let service_data = match bthome_service_data(raw) {
        Some(data) => data,
        None => {
            return Err(DecodeError::NoBtHomeServiceData);
        },
    };
    assert(service_data@.len() > 0) by {
        if service_data@.len() == 0 {
            assert(service_data@ =~= Seq::<u8>::empty());
        }
    }
    let decoded = match decode_bthome_v2(service_data) {
        Ok(decoded) => decoded,
        Err(err) => {
            return Err(DecodeError::BtHomeDecodeFailed(err));
        },
    };
    match reading_from_elements(&decoded.elements) {
        Some(reading) => Ok(reading),
        None => Err(DecodeError::NoOpeningOrMotion(decoded.summary)),
    }
}

/// Whether a base64 payload can be decoded without reaching btsensor with
/// empty service data.
pub open spec fn payload_decodable(payload: Seq<char>) -> bool {
    match base64_standard_decode(payload) {
        Ok(raw) => advertisement_decodable(raw),
        Err(_) => true,
    }
}

/// The outcome of decoding a base64 payload.
pub open spec fn payload_outcome_matches(
    payload: Seq<char>,
    outcome: Result<Reading, DecodeError>,
) -> bool {
    match base64_standard_decode(payload) {
        Err(text) => outcome matches Err(DecodeError::InvalidBase64(e)) && e@ == text,
        Ok(raw) => advertisement_outcome_matches(raw, outcome),
    }
}

/// Decodes a base64 BLE advertisement payload into an alarm reading.
pub fn decode_reading(payload_b64: &str) -> (outcome: Result<Reading, DecodeError>)
    requires
        payload_decodable(payload_b64@),
    ensures
        payload_outcome_matches(payload_b64@, outcome),
{
    match checked_decode_reading(payload_b64) {
        Some(outcome) => outcome,
        None => {
            assert(false);
            Err(DecodeError::NoBtHomeServiceData)
        },
    }
}

/// Decodes a base64 BLE advertisement payload, on every payload: `None`
/// exactly when the payload's BTHome service data is empty, which btsensor
/// cannot decode.
pub fn checked_decode_reading(payload_b64: &str) -> (outcome: Option<Result<Reading, DecodeError>>)
    ensures
        match outcome {
            None => !payload_decodable(payload_b64@),
            Some(o) => payload_decodable(payload_b64@) && payload_outcome_matches(payload_b64@, o),
        },
{
    let raw = match decode_base64_standard(payload_b64) {
        Ok(raw) => raw,
        Err(err) => {
            return Some(Err(DecodeError::InvalidBase64(err)));
        },
    };
    match bthome_service_data(raw.as_slice()) {
        Some(data) => {
            if data.len() == 0 {
                assert(data@ =~= Seq::<u8>::empty());
                return None;
            }
        },
        None => {},
    }
    Some(reading_from_advertisement(raw.as_slice()))
}

} // verus!
