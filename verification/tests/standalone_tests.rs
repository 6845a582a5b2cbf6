use tembed_ui::standalone::{App, ButtonState, EncoderEvent, InputDecoder, Wake};

#[test]
fn long_press_repeats_while_held() {
    let mut d = InputDecoder::new();
    assert_eq!(d.on_wake(Wake::Button, true, true, 1_000), Some(EncoderEvent::ButtonPressed));
    assert_eq!(d.on_wake(Wake::Button, true, true, 1_200), None);
    assert_eq!(d.after_wake(1_500, false), vec![]);
    assert_eq!(d.after_wake(2_001_000, false), vec![EncoderEvent::LongPress]);
    // the start is reset to 0, so every later check while held is a long press again
    assert_eq!(d.after_wake(2_500_000, false), vec![EncoderEvent::LongPress]);
    assert_eq!(
        d.after_wake(2_600_000, true),
        vec![EncoderEvent::LongPress, EncoderEvent::ButtonReleased]
    );
    assert_eq!(d.after_wake(9_000_000, true), vec![]);
}

#[test]
fn short_press_is_press_then_release() {
    let mut b = ButtonState::new();
    assert!(b.on_falling_edge(10));
    assert!(!b.check_long_press(1_999_999));
    assert!(b.poll_release(true));
    assert!(!b.check_long_press(5_000_000));
}

#[test]
fn standalone_rotation_events() {
    let mut d = InputDecoder::new();
    assert_eq!(d.on_wake(Wake::PinA, true, true, 0), None);
    assert_eq!(d.on_wake(Wake::PinA, true, false, 0), None);
    assert_eq!(d.on_wake(Wake::PinB, false, false, 0), None);
    assert_eq!(d.on_wake(Wake::PinA, false, true, 0), None);
    assert_eq!(d.on_wake(Wake::PinB, true, true, 0), Some(EncoderEvent::Clockwise));
    assert_eq!(d.on_wake(Wake::PinB, false, true, 0), None);
    assert_eq!(d.on_wake(Wake::PinA, false, false, 0), None);
    assert_eq!(d.on_wake(Wake::PinB, true, false, 0), None);
    assert_eq!(d.on_wake(Wake::PinA, true, true, 0), Some(EncoderEvent::CounterClockwise));
}

#[test]
fn standalone_menu_scrolls_within_its_items() {
    assert_eq!(
        App::items(),
        vec!["Wi-Fi", "Bluetooth", "RFID/NFC", "Sub-GHz", "IR Remote", "GPS", "Settings"]
    );
    let mut app = App::default();
    for _ in 0..10 {
        app.handle_event(EncoderEvent::Clockwise);
    }
    assert_eq!(app.selected(), 6);
    app.handle_event(EncoderEvent::CounterClockwise);
    assert_eq!(app.selected(), 5);
    app.handle_event(EncoderEvent::ButtonPressed);
    app.handle_event(EncoderEvent::LongPress);
    assert_eq!(app.selected(), 5);
}

#[test]
fn button_checks_leave_rotation_decoding_alone() {
    let mut d = InputDecoder::new();
    assert_eq!(d.on_wake(Wake::PinA, true, true, 0), None);
    assert_eq!(d.on_wake(Wake::PinA, true, false, 0), None);
    assert_eq!(d.on_wake(Wake::PinB, false, false, 0), None);
    assert_eq!(d.after_wake(10, true), vec![]);
    assert_eq!(d.on_wake(Wake::PinA, false, true, 0), None);
    assert_eq!(d.after_wake(20, true), vec![]);
    assert_eq!(d.on_wake(Wake::PinB, true, true, 0), Some(EncoderEvent::Clockwise));
}
