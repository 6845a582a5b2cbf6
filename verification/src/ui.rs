//! The single-screen interface: a main menu with a brightness pop-up and a
//! BLE keyboard mode.

use vstd::prelude::*;
use crate::app::ui_node::{menu_down, menu_up, select_down, select_up};
use crate::input::EncoderEvent;

verus! {

/// An entry of the main menu.
#[derive(Debug, Clone, Copy, PartialEq, Eq, Structural)]
pub enum MenuItem {
    /// Wi-Fi tools.
    Wifi,
    /// Bluetooth tools.
    Bluetooth,
    /// The BLE keyboard.
    BleKeyboard,
    /// RFID and NFC tools.
    RfidNfc,
    /// Sub-GHz radio tools.
    SubGhz,
    /// Infrared remote.
    IrRemote,
    /// Settings (the brightness pop-up).
    Settings,
}

/// The menu's entries, top to bottom.
pub open spec fn all_items() -> Seq<MenuItem> {
    seq![
        MenuItem::Wifi,
        MenuItem::Bluetooth,
        MenuItem::BleKeyboard,
        MenuItem::RfidNfc,
        MenuItem::SubGhz,
        MenuItem::IrRemote,
        MenuItem::Settings,
    ]
}

/// The label of an entry.
pub open spec fn item_label(item: MenuItem) -> Seq<char> {
    match item {
        MenuItem::Wifi => "Wi-Fi"@,
        MenuItem::Bluetooth => "Bluetooth"@,
        MenuItem::BleKeyboard => "BLE Keyboard"@,
        MenuItem::RfidNfc => "RFID/NFC"@,
        MenuItem::SubGhz => "Sub-GHz"@,
        MenuItem::IrRemote => "IR Remote"@,
        MenuItem::Settings => "Settings"@,
    }
}

impl MenuItem {
    /// All entries, top to bottom.
    pub fn all() -> (r: Vec<MenuItem>)
        ensures
            r@ == all_items(),
    {
        let r = vec![
            MenuItem::Wifi,
            MenuItem::Bluetooth,
            MenuItem::BleKeyboard,
            MenuItem::RfidNfc,
            MenuItem::SubGhz,
            MenuItem::IrRemote,
            MenuItem::Settings,
        ];
        assert(r@ =~= all_items());
        r
    }

    /// The label shown in the menu.
    pub fn label(self) -> (r: &'static str)
        ensures
            r@ == item_label(self),
    {
        match self {
            MenuItem::Wifi => "Wi-Fi",
            MenuItem::Bluetooth => "Bluetooth",
            MenuItem::BleKeyboard => "BLE Keyboard",
            MenuItem::RfidNfc => "RFID/NFC",
            MenuItem::SubGhz => "Sub-GHz",
            MenuItem::IrRemote => "IR Remote",
            MenuItem::Settings => "Settings",
        }
    }

    /// Whether this is the settings entry.
    pub fn is_settings(self) -> (r: bool)
        ensures
            r == (self == MenuItem::Settings),
    {
        matches!(self, MenuItem::Settings)
    }

    /// Whether this is the BLE keyboard entry.
    pub fn is_ble_keyboard(self) -> (r: bool)
        ensures
            r == (self == MenuItem::BleKeyboard),
    {
        matches!(self, MenuItem::BleKeyboard)
    }
}

/// What the interface shows.
#[derive(Debug, Clone, Copy, PartialEq, Eq, Structural)]
pub enum AppState {
    /// The menu.
    Menu,
    /// The menu with the brightness pop-up over it.
    BrightnessPopup,
    /// The BLE keyboard page.
    BleKeyboardMode,
}

/// The interface as mathematical values.
pub struct AppView {
    /// What is shown.
    pub state: AppState,
    /// The selected menu entry.
    pub selected: nat,
    /// The menu's entries, top to bottom.
    pub items: Seq<MenuItem>,
    /// The brightness, in percent.
    pub brightness: nat,
}

/// The interface's invariant: the menu holds all entries in order, the
/// selection is one of them, the brightness is between 1 and 100.
pub open spec fn app_view_wf(v: AppView) -> bool {
    &&& v.items == all_items()
    &&& v.selected < v.items.len()
    &&& 1 <= v.brightness <= 100
}

/// The first index of `x` in `s`, if it occurs.
pub open spec fn position_of(s: Seq<MenuItem>, x: MenuItem) -> Option<nat>
    decreases s.len(),
{
    if s.len() == 0 {
        None
    } else if s.last() == x {
        match position_of(s.drop_last(), x) {
            Some(i) => Some(i),
            None => Some((s.len() - 1) as nat),
        }
    } else {
        position_of(s.drop_last(), x)
    }
}

/// The selection when returning to the menu `items` from `item`'s screen:
/// that entry, or the current selection if the menu does not hold it.
pub open spec fn return_selection(items: Seq<MenuItem>, selected: nat, item: MenuItem) -> nat {
    match position_of(items, item) {
        Some(i) => i,
        None => selected,
    }
}

/// The interface after `event`. In the menu, turning moves the selection and
/// confirming opens the brightness pop-up (on Settings) or the keyboard page
/// (on BLE Keyboard). In the pop-up, turning changes the brightness within
/// 1..=100, and confirm or back close it. On the keyboard page, back returns
/// to the menu. Returning selects the entry one returns from.
pub open spec fn step(v: AppView, event: EncoderEvent) -> AppView {
    match v.state {
        AppState::Menu => match event {
            EncoderEvent::Clockwise => AppView {
                selected: menu_down(v.selected, v.items.len()),
                ..v
            },
            EncoderEvent::CounterClockwise => AppView { selected: menu_up(v.selected), ..v },
            EncoderEvent::ConfirmReleased => if v.selected < v.items.len() && v.items[v.selected as int]
                == MenuItem::Settings {
                AppView { state: AppState::BrightnessPopup, ..v }
            } else if v.selected < v.items.len() && v.items[v.selected as int]
                == MenuItem::BleKeyboard {
                AppView { state: AppState::BleKeyboardMode, ..v }
            } else {
                v
            },
            _ => v,
        },
        AppState::BrightnessPopup => match event {
            EncoderEvent::Clockwise => AppView {
                brightness: if v.brightness < 100 {
                    v.brightness + 1
                } else {
                    v.brightness
                },
                ..v
            },
            EncoderEvent::CounterClockwise => AppView {
                brightness: if v.brightness > 1 {
                    (v.brightness - 1) as nat
                } else {
                    v.brightness
                },
                ..v
            },
            EncoderEvent::ConfirmReleased | EncoderEvent::BackPressed => AppView {
                state: AppState::Menu,
                selected: return_selection(v.items, v.selected, MenuItem::Settings),
                ..v
            },
            _ => v,
        },
        AppState::BleKeyboardMode => match event {
            EncoderEvent::BackPressed => AppView {
                state: AppState::Menu,
                selected: return_selection(v.items, v.selected, MenuItem::BleKeyboard),
                ..v
            },
            _ => v,
        },
    }
}

/// The single-screen interface.
pub struct App {
    state: AppState,
    selected: usize,
    menu_items: Vec<MenuItem>,
    brightness: u8,
}

impl View for App {
    type V = AppView;

    closed spec fn view(&self) -> AppView {
        AppView {
            state: self.state,
            selected: self.selected as nat,
            items: self.menu_items@,
            brightness: self.brightness as nat,
        }
    }
}

/// The first index of `target` in `items`, if it occurs.
fn find_item(items: &Vec<MenuItem>, target: MenuItem) -> (r: Option<usize>)
    ensures
        r matches Some(i) ==> position_of(items@, target) == Some(i as nat),
        r is None ==> position_of(items@, target) is None,
{
    let mut i: usize = 0;
    while i < items.len()
        invariant
            i <= items@.len(),
            position_of(items@.take(i as int), target) is None,
        decreases items.len() - i,
    {
        if items[i] == target {
            proof {
                lemma_position_prefix(items@, i as int, target);
            }
            return Some(i);
        }
        proof {
            assert(items@.take(i + 1).drop_last() =~= items@.take(i as int));
        }
        i = i + 1;
    }
    assert(items@.take(i as int) =~= items@);
    None
}

/// When `s[..i]` does not hold `x` and `s[i] == x`, the first index of `x`
/// is `i`.
proof fn lemma_position_prefix(s: Seq<MenuItem>, i: int, x: MenuItem)
    requires
        0 <= i < s.len(),
        position_of(s.take(i), x) is None,
        s[i] == x,
    ensures
        position_of(s, x) == Some(i as nat),
    decreases s.len(),
{
    if i < s.len() - 1 {
        assert(s.drop_last().take(i) =~= s.take(i));
        lemma_position_prefix(s.drop_last(), i, x);
    } else {
        assert(s.drop_last() =~= s.take(i));
    }
}

impl App {
    /// The interface's invariant.
    pub open spec fn wf(&self) -> bool {
        app_view_wf(self@)
    }

    /// The menu, first entry selected, at full brightness.
    pub fn new() -> (r: Self)
        ensures
            r.wf(),
            r@ == (AppView { state: AppState::Menu, selected: 0, items: all_items(), brightness: 100 }),
    {
        App { state: AppState::Menu, selected: 0, menu_items: MenuItem::all(), brightness: 100 }
    }

    /// Whether the keyboard page is shown.
    pub fn is_ble_mode(&self) -> (r: bool)
        ensures
            r == (self@.state == AppState::BleKeyboardMode),
    {
        matches!(self.state, AppState::BleKeyboardMode)
    }

    /// Handles one encoder event.
    pub fn handle_event(&mut self, event: EncoderEvent)
        requires
            old(self).wf(),
        ensures
            final(self).wf(),
            final(self)@ == step(old(self)@, event),
    {
        match self.state {
            AppState::Menu => {
                match event {
                    EncoderEvent::Clockwise => {
                        self.selected = select_down(self.selected, self.menu_items.len());
                    },
                    EncoderEvent::CounterClockwise => {
                        self.selected = select_up(self.selected);
                    },
                    EncoderEvent::ConfirmReleased => {
                        if self.selected < self.menu_items.len() {
                            let item = self.menu_items[self.selected];
                            if item.is_settings() {
                                self.state = AppState::BrightnessPopup;
                            } else if item.is_ble_keyboard() {
                                self.state = AppState::BleKeyboardMode;
                            }
                        }
                    },
                    _ => {},
                }
            },
            AppState::BrightnessPopup => {
                match event {
                    EncoderEvent::Clockwise => {
                        if self.brightness < 100 {
                            self.brightness = self.brightness + 1;
                        }
                    },
                    EncoderEvent::CounterClockwise => {
                        if self.brightness > 1 {
                            self.brightness = self.brightness - 1;
                        }
                    },
                    EncoderEvent::ConfirmReleased | EncoderEvent::BackPressed => {
                        self.state = AppState::Menu;
                        self.selected = match find_item(&self.menu_items, MenuItem::Settings) {
                            Some(i) => i,
                            None => self.selected,
                        };
                    },
                    _ => {},
                }
            },
            AppState::BleKeyboardMode => {
                match event {
                    EncoderEvent::BackPressed => {
                        self.state = AppState::Menu;
                        self.selected = match find_item(&self.menu_items, MenuItem::BleKeyboard) {
                            Some(i) => i,
                            None => self.selected,
                        };
                    },
                    _ => {},
                }
            },
        }
        proof {
            lemma_return_positions();
        }
    }

    /// The selected entry.
    pub fn selected(&self) -> (r: usize)
        ensures
            r == self@.selected,
    {
        self.selected
    }

    /// What is shown.
    pub fn state(&self) -> (r: AppState)
        ensures
            r == self@.state,
    {
        self.state
    }

    /// The brightness, in percent.
    pub fn get_brightness(&self) -> (r: u8)
        ensures
            r == self@.brightness,
    {
        self.brightness
    }
}

impl Default for App {
    /// The menu, first entry selected, at full brightness.
    fn default() -> (r: Self)
        ensures
            r.wf(),
            r@ == (AppView { state: AppState::Menu, selected: 0, items: all_items(), brightness: 100 }),
    {
        Self::new()
    }
}

/// Settings is the seventh entry and BLE Keyboard the third.
proof fn lemma_return_positions()
    ensures
        position_of(all_items(), MenuItem::Settings) == Some(6nat),
        position_of(all_items(), MenuItem::BleKeyboard) == Some(2nat),
{
    reveal_with_fuel(position_of, 8);
    let s = all_items();
    assert(s.drop_last() =~= seq![
        MenuItem::Wifi,
        MenuItem::Bluetooth,
        MenuItem::BleKeyboard,
        MenuItem::RfidNfc,
        MenuItem::SubGhz,
        MenuItem::IrRemote,
    ]);
    assert(s.drop_last().drop_last() =~= seq![
        MenuItem::Wifi,
        MenuItem::Bluetooth,
        MenuItem::BleKeyboard,
        MenuItem::RfidNfc,
        MenuItem::SubGhz,
    ]);
    assert(s.drop_last().drop_last().drop_last() =~= seq![
        MenuItem::Wifi,
        MenuItem::Bluetooth,
        MenuItem::BleKeyboard,
        MenuItem::RfidNfc,
    ]);
    assert(s.drop_last().drop_last().drop_last().drop_last() =~= seq![
        MenuItem::Wifi,
        MenuItem::Bluetooth,
        MenuItem::BleKeyboard,
    ]);
    assert(s.drop_last().drop_last().drop_last().drop_last().drop_last() =~= seq![
        MenuItem::Wifi,
        MenuItem::Bluetooth,
    ]);
    assert(s.drop_last().drop_last().drop_last().drop_last().drop_last().drop_last() =~= seq![
        MenuItem::Wifi,
    ]);
    assert(s.drop_last().drop_last().drop_last().drop_last().drop_last().drop_last().drop_last()
        =~= Seq::<MenuItem>::empty());
}

/// Law: leaving the brightness pop-up (confirm or back) or the keyboard
/// page (back) returns to the menu with the entry that opened it selected;
/// the brightness changes only while the pop-up is shown, and every event
/// keeps the selection on an entry and the brightness between 1 and 100.
pub proof fn law_return_selects_opener(v: AppView, event: EncoderEvent)
    requires
        app_view_wf(v),
    ensures
        app_view_wf(step(v, event)),
        v.state == AppState::BrightnessPopup && step(v, event).state == AppState::Menu
            ==> all_items()[step(v, event).selected as int] == MenuItem::Settings,
        v.state == AppState::BleKeyboardMode && step(v, event).state == AppState::Menu
            ==> all_items()[step(v, event).selected as int] == MenuItem::BleKeyboard,
        step(v, event).brightness != v.brightness ==> v.state == AppState::BrightnessPopup,
        v.state == AppState::Menu && step(v, event).state == AppState::BrightnessPopup
            ==> all_items()[v.selected as int] == MenuItem::Settings,
        v.state == AppState::Menu && step(v, event).state == AppState::BleKeyboardMode
            ==> all_items()[v.selected as int] == MenuItem::BleKeyboard,
{
    lemma_return_positions();
}

/// Law: in the brightness pop-up, clockwise raises a brightness below 100
/// by exactly one and counter-clockwise lowers one above 1 by exactly one;
/// at the ends it stays. Turning keeps the pop-up open and the selection.
pub proof fn law_popup_turns_step_brightness(v: AppView)
    requires
        app_view_wf(v),
        v.state == AppState::BrightnessPopup,
    ensures
        v.brightness < 100 ==> step(v, EncoderEvent::Clockwise).brightness == v.brightness + 1,
        v.brightness == 100 ==> step(v, EncoderEvent::Clockwise).brightness == 100,
        v.brightness > 1 ==> step(v, EncoderEvent::CounterClockwise).brightness == v.brightness - 1,
        v.brightness == 1 ==> step(v, EncoderEvent::CounterClockwise).brightness == 1,
        step(v, EncoderEvent::Clockwise).state == AppState::BrightnessPopup,
        step(v, EncoderEvent::CounterClockwise).state == AppState::BrightnessPopup,
        step(v, EncoderEvent::Clockwise).selected == v.selected,
        step(v, EncoderEvent::CounterClockwise).selected == v.selected,
{
}

/// Law: in the menu, clockwise selects the next entry and counter-clockwise
/// the previous one, staying at the ends; the brightness does not change.
pub proof fn law_menu_turns_move_selection(v: AppView)
    requires
        app_view_wf(v),
        v.state == AppState::Menu,
    ensures
        v.selected + 1 < v.items.len() ==> step(v, EncoderEvent::Clockwise).selected == v.selected + 1,
        v.selected + 1 == v.items.len() ==> step(v, EncoderEvent::Clockwise).selected == v.selected,
        v.selected > 0 ==> step(v, EncoderEvent::CounterClockwise).selected == v.selected - 1,
        v.selected == 0 ==> step(v, EncoderEvent::CounterClockwise).selected == 0,
        step(v, EncoderEvent::Clockwise).brightness == v.brightness,
        step(v, EncoderEvent::CounterClockwise).brightness == v.brightness,
{
}

} // verus!
