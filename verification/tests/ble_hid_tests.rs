use tembed_ui::backlight::brightness_duty;
use tembed_ui::ble_hid::key_codes::{KEY_DOWN, KEY_UP};
use tembed_ui::ble_hid::{
    advertising_data, encode_payload, key_code, key_name, key_stroke_reports, scan_response_data,
    AdField, AdvertisingError, BleKeyEvent, KeyboardReport, ADV_PAYLOAD_MAX, ble_control_step,
    BleAction, BleControlEvent,
};

#[test]
fn report_with_a_key_puts_it_first() {
    assert_eq!(KeyboardReport::with_key(0x52).to_bytes(), [0, 0, 0x52, 0, 0, 0, 0, 0]);
    assert_eq!(KeyboardReport::empty().to_bytes(), [0; 8]);
    let r = KeyboardReport { modifier: 2, reserved: 0, keys: [4, 5, 6, 7, 8, 9] };
    assert_eq!(r.to_bytes(), [2, 0, 4, 5, 6, 7, 8, 9]);
}

#[test]
fn arrow_keys_have_their_usage_codes() {
    assert_eq!(KEY_UP, 0x52);
    assert_eq!(KEY_DOWN, 0x51);
    assert_eq!(key_code(BleKeyEvent::Up), KEY_UP);
    assert_eq!(key_code(BleKeyEvent::Down), KEY_DOWN);
    assert_eq!(key_name(BleKeyEvent::Up), "UP");
    assert_eq!(key_name(BleKeyEvent::Down), "DOWN");
}

#[test]
fn a_key_stroke_is_press_then_release() {
    let (press, release) = key_stroke_reports(BleKeyEvent::Down);
    assert_eq!(press, [0, 0, 0x51, 0, 0, 0, 0, 0]);
    assert_eq!(release, [0; 8]);
}

#[test]
fn advertising_payload_holds_flags_and_hid_uuid() {
    assert_eq!(advertising_data().unwrap(), vec![0x02, 0x01, 0x06, 0x03, 0x03, 0x12, 0x18]);
}

#[test]
fn scan_response_holds_the_name() {
    let mut expected = vec![11, 0x09];
    expected.extend_from_slice(b"T-Embed-KB");
    assert_eq!(scan_response_data("T-Embed-KB").unwrap(), expected);
    let longest = "abcdefghijklmnopqrstuvwxyz123";
    assert_eq!(scan_response_data(longest).unwrap().len(), ADV_PAYLOAD_MAX);
    assert_eq!(scan_response_data("abcdefghijklmnopqrstuvwxyz1234"), Err(AdvertisingError::InsufficientSpace));
}

#[test]
fn payload_encoding_concatenates_structures() {
    let fields = [
        AdField::Flags(0x06),
        AdField::CompleteServiceUuids16(vec![[0x0f, 0x18], [0x12, 0x18]]),
        AdField::CompleteLocalName(b"KB".to_vec()),
    ];
    assert_eq!(
        encode_payload(&fields).unwrap(),
        vec![2, 1, 6, 5, 3, 0x0f, 0x18, 0x12, 0x18, 3, 9, b'K', b'B']
    );
}

#[test]
fn backlight_duty_is_capped() {
    assert_eq!(brightness_duty(42), 42);
    assert_eq!(brightness_duty(100), 100);
    assert_eq!(brightness_duty(150), 100);
    assert_eq!(brightness_duty(0), 0);
}

#[test]
fn control_requests_start_and_stop_one_session() {
    assert_eq!(ble_control_step(false, BleControlEvent::Start), (true, BleAction::StartAdvertising));
    assert_eq!(ble_control_step(true, BleControlEvent::Start), (true, BleAction::Ignore));
    assert_eq!(ble_control_step(true, BleControlEvent::Stop), (false, BleAction::StopAdvertising));
    assert_eq!(ble_control_step(false, BleControlEvent::Stop), (false, BleAction::Ignore));
}
