//! BLE HID keyboard: the key events that the interface sends, the 8-byte
//! keyboard input report, and the advertising payloads.

pub mod key_codes;

use vstd::prelude::*;
use vstd::string::*;
use key_codes::{KEY_DOWN, KEY_UP};
use trouble_host::prelude::{AdStructure, BR_EDR_NOT_SUPPORTED, LE_GENERAL_DISCOVERABLE};

verus! {

/// A key that the BLE keyboard sends.
#[derive(Debug, Clone, Copy, PartialEq, Eq, Structural)]
pub enum BleKeyEvent {
    /// Up arrow.
    Up,
    /// Down arrow.
    Down,
}

/// Starts or stops the BLE keyboard service (advertising).
#[derive(Debug, Clone, Copy, PartialEq, Eq, Structural)]
pub enum BleControlEvent {
    /// Start advertising as a keyboard.
    Start,
    /// Stop advertising.
    Stop,
}

/// What the BLE task does on a control request.
#[derive(Debug, Clone, Copy, PartialEq, Eq, Structural)]
pub enum BleAction {
    /// Begin advertising as a keyboard.
    StartAdvertising,
    /// End the session: stop advertising and drop the connection.
    StopAdvertising,
    /// Nothing to do.
    Ignore,
}

/// The keyboard's next state (whether a session runs) and the action on a
/// control request: a start begins a session unless one runs, a stop ends a
/// running one, anything else is ignored.
pub open spec fn ble_control_spec(active: bool, event: BleControlEvent) -> (bool, BleAction) {
    match event {
        BleControlEvent::Start => if active {
            (true, BleAction::Ignore)
        } else {
            (true, BleAction::StartAdvertising)
        },
        BleControlEvent::Stop => if active {
            (false, BleAction::StopAdvertising)
        } else {
            (false, BleAction::Ignore)
        },
    }
}

/// Decides what a control request does, given whether a keyboard session
/// runs.
pub fn ble_control_step(active: bool, event: BleControlEvent) -> (r: (bool, BleAction))
    ensures
        r == ble_control_spec(active, event),
{
    match event {
        BleControlEvent::Start => if active {
            (true, BleAction::Ignore)
        } else {
            (true, BleAction::StartAdvertising)
        },
        BleControlEvent::Stop => if active {
            (false, BleAction::StopAdvertising)
        } else {
            (false, BleAction::Ignore)
        },
    }
}

/// A keyboard input report in the standard 8-byte HID boot format.
#[derive(Debug, Clone, Copy, PartialEq, Eq)]
pub struct KeyboardReport {
    /// Modifier key bits.
    pub modifier: u8,
    /// Reserved byte.
    pub reserved: u8,
    /// Up to six pressed keys.
    pub keys: [u8; 6],
}

/// The report bytes: modifier, reserved, then the six keys.
pub open spec fn report_bytes(r: KeyboardReport) -> Seq<u8> {
    seq![r.modifier, r.reserved] + r.keys@
}

impl KeyboardReport {
    /// The report with no key pressed.
    pub fn empty() -> (r: Self)
        ensures
            r.modifier == 0,
            r.reserved == 0,
            r.keys@ == seq![0u8, 0u8, 0u8, 0u8, 0u8, 0u8],
    {
        KeyboardReport { modifier: 0, reserved: 0, keys: [0u8; 6] }
    }

    /// The report with exactly `key` pressed.
    pub fn with_key(key: u8) -> (r: Self)
        ensures
            r.modifier == 0,
            r.reserved == 0,
            r.keys@ == seq![key, 0u8, 0u8, 0u8, 0u8, 0u8],
    {
        KeyboardReport { modifier: 0, reserved: 0, keys: [key, 0, 0, 0, 0, 0] }
    }

    /// The 8 bytes sent over the air.
    pub fn to_bytes(&self) -> (r: [u8; 8])
        ensures
            r@ == report_bytes(*self),
    {
        let r = [
            self.modifier,
            self.reserved,
            self.keys[0],
            self.keys[1],
            self.keys[2],
            self.keys[3],
            self.keys[4],
            self.keys[5],
        ];
        assert(r@ =~= report_bytes(*self));
        r
    }
}

/// The HID usage code of a key event.
pub open spec fn key_code_spec(event: BleKeyEvent) -> u8 {
    match event {
        BleKeyEvent::Up => KEY_UP,
        BleKeyEvent::Down => KEY_DOWN,
    }
}

/// The HID usage code of a key event.
pub fn key_code(event: BleKeyEvent) -> (r: u8)
    ensures
        r == key_code_spec(event),
{
    match event {
        BleKeyEvent::Up => KEY_UP,
        BleKeyEvent::Down => KEY_DOWN,
    }
}

/// The name of a key event, for the log.
pub fn key_name(event: BleKeyEvent) -> (r: &'static str)
    ensures
        r@ == match event {
            BleKeyEvent::Up => "UP"@,
            BleKeyEvent::Down => "DOWN"@,
        },
{
    match event {
        BleKeyEvent::Up => "UP",
        BleKeyEvent::Down => "DOWN",
    }
}

/// The two reports that type one key: the key pressed, then all keys released.
pub fn key_stroke_reports(event: BleKeyEvent) -> (r: ([u8; 8], [u8; 8]))
    ensures
        r.0@ == seq![0u8, 0u8, key_code_spec(event), 0u8, 0u8, 0u8, 0u8, 0u8],
        r.1@ == seq![0u8, 0u8, 0u8, 0u8, 0u8, 0u8, 0u8, 0u8],
{
    let press = KeyboardReport::with_key(key_code(event)).to_bytes();
    let release = KeyboardReport::empty().to_bytes();
    assert(press@ =~= seq![0u8, 0u8, key_code_spec(event), 0u8, 0u8, 0u8, 0u8, 0u8]);
    assert(release@ =~= seq![0u8, 0u8, 0u8, 0u8, 0u8, 0u8, 0u8, 0u8]);
    (press, release)
}

// =============================================================================
// Advertising payloads
// =============================================================================

/// The most bytes that a legacy advertising or scan-response payload holds.
pub const ADV_PAYLOAD_MAX: usize = 31;

/// The 16-bit UUID of the HID service, in over-the-air (little-endian) order.
pub const HID_SERVICE_UUID16: [u8; 2] = [0x12, 0x18];

/// An advertising data structure, of the kinds that the keyboard sends.
#[derive(Debug, Clone)]
pub enum AdField {
    /// The device flags.
    Flags(u8),
    /// The complete list of 16-bit service UUIDs.
    CompleteServiceUuids16(Vec<[u8; 2]>),
    /// The complete device name.
    CompleteLocalName(Vec<u8>),
}

/// The bytes of a list of 16-bit UUIDs, in order.
pub open spec fn uuid16_bytes(us: Seq<[u8; 2]>) -> Seq<u8>
    decreases us.len(),
{
    if us.len() == 0 {
        Seq::empty()
    } else {
        uuid16_bytes(us.drop_last()) + us.last()@
    }
}

/// The encoding of one structure: its length (of type and data, in one
/// byte), its type code (0x01 flags, 0x03 complete 16-bit UUID list, 0x09
/// complete local name), then its data.
pub open spec fn ad_field_bytes(f: AdField) -> Seq<u8> {
    match f {
        AdField::Flags(x) => seq![2u8, 1u8, x],
        AdField::CompleteServiceUuids16(us) => seq![(2 * us@.len() + 1) as u8, 3u8] + uuid16_bytes(
            us@,
        ),
        AdField::CompleteLocalName(n) => seq![(n@.len() + 1) as u8, 9u8] + n@,
    }
}

/// The encoding of a list of structures: each one's, in order.
pub open spec fn ad_bytes(fs: Seq<AdField>) -> Seq<u8>
    decreases fs.len(),
{
    if fs.len() == 0 {
        Seq::empty()
    } else {
        ad_bytes(fs.drop_last()) + ad_field_bytes(fs.last())
    }
}

/// Encodes advertising structures into `dest`: `AdStructure::encode_slice`,
/// which writes each structure (length byte, type code, data) one after the
/// other and returns the number of bytes written, or fails when they do not
/// fit. What a failed call leaves in `dest` is not stated.
#[verifier::external_body]
fn encode_ad_structures(fields: &[AdField], dest: &mut [u8]) -> (r: Option<usize>)
    ensures
        final(dest)@.len() == old(dest)@.len(),
        r is Some <==> ad_bytes(fields@).len() <= old(dest)@.len(),
        r matches Some(n) ==> n == ad_bytes(fields@).len() && final(dest)@.subrange(0, n as int)
            == ad_bytes(fields@),
{
    let structures: Vec<AdStructure<'_>> = fields.iter().map(|f| match f {
        AdField::Flags(x) => AdStructure::Flags(*x),
        AdField::CompleteServiceUuids16(u) => AdStructure::CompleteServiceUuids16(u.as_slice()),
        AdField::CompleteLocalName(n) => AdStructure::CompleteLocalName(n.as_slice()),
    }).collect();
    AdStructure::encode_slice(&structures, dest).ok()
}

/// The flag "LE general discoverable mode": `LE_GENERAL_DISCOVERABLE`.
#[verifier::external_body]
fn le_general_discoverable() -> (r: u8)
    ensures
        r == 0x02,
{
    LE_GENERAL_DISCOVERABLE
}

/// The flag "BR/EDR not supported": `BR_EDR_NOT_SUPPORTED`.
#[verifier::external_body]
fn br_edr_not_supported() -> (r: u8)
    ensures
        r == 0x04,
{
    BR_EDR_NOT_SUPPORTED
}

/// Why an advertising payload could not be built.
#[derive(Debug, Clone, Copy, PartialEq, Eq, Structural)]
pub enum AdvertisingError {
    /// The structures do not fit in one payload.
    InsufficientSpace,
}

/// Encodes `fields` into one payload of at most `ADV_PAYLOAD_MAX` bytes.
pub fn encode_payload(fields: &[AdField]) -> (r: Result<Vec<u8>, AdvertisingError>)
    ensures
        ad_bytes(fields@).len() <= ADV_PAYLOAD_MAX <==> r is Ok,
        r matches Ok(v) ==> v@ == ad_bytes(fields@),
        r matches Err(e) ==> e == AdvertisingError::InsufficientSpace,
{
    let mut buf: Vec<u8> = vec![0u8; ADV_PAYLOAD_MAX];
    let n = encode_ad_structures(fields, buf.as_mut_slice());
    match n {
        Some(len) => {
            buf.truncate(len);
            Ok(buf)
        },
        None => Err(AdvertisingError::InsufficientSpace),
    }
}

/// The advertising payload of the keyboard: the flags (LE general
/// discoverable, BR/EDR not supported) and the HID service's UUID.
pub fn advertising_data() -> (r: Result<Vec<u8>, AdvertisingError>)
    ensures
        r matches Ok(v) && v@ == seq![2u8, 1u8, 0x06u8, 3u8, 3u8, 0x12u8, 0x18u8],
{
    let flags = le_general_discoverable() | br_edr_not_supported();
    assert(flags == 0x06) by (bit_vector)
        requires
            flags == (0x02u8 | 0x04u8),
    ;
    let fields = vec![
        AdField::Flags(flags),
        AdField::CompleteServiceUuids16(vec![HID_SERVICE_UUID16]),
    ];
    proof {
        let fs = fields@;
        assert(fs.drop_last().drop_last() =~= Seq::<AdField>::empty());
        assert(fs.drop_last() =~= seq![fs[0]]);
        if let AdField::CompleteServiceUuids16(us) = fs[1] {
            assert(us@.drop_last() =~= Seq::<[u8; 2]>::empty());
            assert(us@.last()@ =~= seq![0x12u8, 0x18u8]);
            reveal_with_fuel(uuid16_bytes, 2);
            assert(uuid16_bytes(us@) =~= seq![0x12u8, 0x18u8]);
        }
        reveal_with_fuel(ad_bytes, 3);
        assert(ad_bytes(fs) =~= seq![2u8, 1u8, 0x06u8, 3u8, 3u8, 0x12u8, 0x18u8]);
    }
    encode_payload(fields.as_slice())
}

/// The scan-response payload of the keyboard: its complete name. It fails
/// when the name is longer than 29 bytes.
pub fn scan_response_data(name: &str) -> (r: Result<Vec<u8>, AdvertisingError>)
    ensures
        name.spec_bytes().len() + 2 <= ADV_PAYLOAD_MAX <==> r is Ok,
        r matches Ok(v) ==> v@ == seq![(name.spec_bytes().len() + 1) as u8, 9u8] + name.spec_bytes(),
        r matches Err(e) ==> e == AdvertisingError::InsufficientSpace,
{
    let bytes = vstd::slice::slice_to_vec(name.as_bytes());
    let fields = vec![AdField::CompleteLocalName(bytes)];
    proof {
        let fs = fields@;
        assert(fs.drop_last() =~= Seq::<AdField>::empty());
        reveal_with_fuel(ad_bytes, 2);
        assert(ad_bytes(fs) =~= ad_field_bytes(fs[0]));
    }
    encode_payload(fields.as_slice())
}

} // verus!
