//! Verified core of the T-Embed user interface firmware: rotary-encoder
//! decoding, the menu navigation state machine, SD-card browsing helpers and
//! BLE HID report construction.

pub mod ble_hid;
pub mod input;
pub mod sd_card;
pub mod app;
pub mod ui;
pub mod backlight;
pub mod standalone;
