use tembed_ui::input::{ButtonState, EncoderEvent, EncoderState, InputDecoder, Wake};

fn feed(enc: &mut EncoderState, pins: &[(bool, bool)]) -> Vec<Option<EncoderEvent>> {
    pins.iter().map(|&(a, b)| enc.on_pins(a, b)).collect()
}

const CW: [(bool, bool); 4] = [(true, false), (false, false), (false, true), (true, true)];
const CCW: [(bool, bool); 4] = [(false, true), (false, false), (true, false), (true, true)];

#[test]
fn one_clockwise_detent_reports_one_event() {
    let mut enc = EncoderState::new();
    assert_eq!(enc.on_pins(true, true), None);
    assert_eq!(feed(&mut enc, &CW), vec![None, None, None, Some(EncoderEvent::Clockwise)]);
    assert_eq!(feed(&mut enc, &CW), vec![None, None, None, Some(EncoderEvent::Clockwise)]);
}

#[test]
fn one_counter_clockwise_detent_reports_one_event() {
    let mut enc = EncoderState::new();
    enc.on_pins(true, true);
    assert_eq!(
        feed(&mut enc, &CCW),
        vec![None, None, None, Some(EncoderEvent::CounterClockwise)]
    );
}

#[test]
fn repeated_readings_and_half_turns_report_nothing() {
    let mut enc = EncoderState::new();
    enc.on_pins(true, true);
    assert_eq!(enc.on_pins(true, true), None);
    // half a detent and back
    assert_eq!(feed(&mut enc, &[(true, false), (false, false), (true, false), (true, true)]), vec![None; 4]);
    // a full turn the other way after that still reports it
    assert_eq!(feed(&mut enc, &CW), vec![None, None, None, Some(EncoderEvent::Clockwise)]);
}

#[test]
fn button_press_and_release_alternate() {
    let mut b = ButtonState::new();
    assert!(!b.poll_release(true));
    assert!(b.on_falling_edge());
    assert!(!b.on_falling_edge());
    assert!(!b.poll_release(false));
    assert!(b.poll_release(true));
    assert!(!b.poll_release(true));
    assert!(b.on_falling_edge());
}

#[test]
fn decoder_maps_buttons_to_confirm_and_back() {
    let mut d = InputDecoder::new();
    assert_eq!(d.on_wake(Wake::Confirm, true, true), Some(EncoderEvent::ConfirmPressed));
    assert_eq!(d.on_wake(Wake::Confirm, true, true), None);
    assert_eq!(d.on_wake(Wake::Back, true, true), Some(EncoderEvent::BackPressed));
    assert_eq!(d.poll_releases(false, false), vec![]);
    assert_eq!(
        d.poll_releases(true, true),
        vec![EncoderEvent::ConfirmReleased, EncoderEvent::BackReleased]
    );
    assert_eq!(d.poll_releases(true, true), vec![]);
    assert_eq!(d.on_wake(Wake::PinA, true, true), None);
    assert_eq!(d.on_wake(Wake::PinA, true, false), None);
    assert_eq!(d.on_wake(Wake::PinB, false, false), None);
    assert_eq!(d.on_wake(Wake::PinA, false, true), None);
    assert_eq!(d.on_wake(Wake::PinB, true, true), Some(EncoderEvent::Clockwise));
}
