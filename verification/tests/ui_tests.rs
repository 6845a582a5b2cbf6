use tembed_ui::input::EncoderEvent::{BackPressed, Clockwise, ConfirmReleased, CounterClockwise};
use tembed_ui::ui::{App, AppState, MenuItem};

#[test]
fn menu_items_and_labels() {
    let all = MenuItem::all();
    let labels: Vec<&str> = all.iter().map(|i| i.label()).collect();
    assert_eq!(
        labels,
        vec!["Wi-Fi", "Bluetooth", "BLE Keyboard", "RFID/NFC", "Sub-GHz", "IR Remote", "Settings"]
    );
    assert!(MenuItem::Settings.is_settings());
    assert!(!MenuItem::Wifi.is_settings());
    assert!(MenuItem::BleKeyboard.is_ble_keyboard());
    assert!(!MenuItem::Settings.is_ble_keyboard());
}

#[test]
fn popup_changes_brightness_and_returns_to_settings() {
    let mut app = App::new();
    assert_eq!(app.get_brightness(), 100);
    for _ in 0..10 {
        app.handle_event(Clockwise);
    }
    assert_eq!(app.selected(), 6);
    app.handle_event(ConfirmReleased);
    assert_eq!(app.state(), AppState::BrightnessPopup);
    app.handle_event(Clockwise);
    assert_eq!(app.get_brightness(), 100);
    app.handle_event(CounterClockwise);
    app.handle_event(CounterClockwise);
    assert_eq!(app.get_brightness(), 98);
    app.handle_event(BackPressed);
    assert_eq!(app.state(), AppState::Menu);
    assert_eq!(app.selected(), 6);
    app.handle_event(ConfirmReleased);
    for _ in 0..200 {
        app.handle_event(CounterClockwise);
    }
    assert_eq!(app.get_brightness(), 1);
    app.handle_event(ConfirmReleased);
    assert_eq!(app.state(), AppState::Menu);
}

#[test]
fn keyboard_mode_ignores_turns_and_returns_to_its_entry() {
    let mut app = App::new();
    app.handle_event(Clockwise);
    app.handle_event(Clockwise);
    app.handle_event(ConfirmReleased);
    assert!(app.is_ble_mode());
    app.handle_event(Clockwise);
    app.handle_event(ConfirmReleased);
    assert!(app.is_ble_mode());
    assert_eq!(app.selected(), 2);
    app.handle_event(BackPressed);
    assert!(!app.is_ble_mode());
    assert_eq!(app.selected(), 2);
}

#[test]
fn confirm_on_other_entries_stays_in_the_menu() {
    let mut app = App::default();
    app.handle_event(ConfirmReleased);
    assert_eq!(app.state(), AppState::Menu);
    app.handle_event(BackPressed);
    assert_eq!(app.state(), AppState::Menu);
    assert_eq!(app.selected(), 0);
    app.handle_event(CounterClockwise);
    assert_eq!(app.selected(), 0);
}
