//! The stand-alone menu firmware: one encoder with a single push button,
//! which reports a long press while it is held, and a scrolling menu.

use vstd::prelude::*;
use crate::app::ui_node::{menu_down, menu_up, select_down, select_up};
use crate::input::{EncoderState, EncoderView, encoder_wf, rotation_step};

verus! {

/// An input event of the stand-alone firmware.
#[derive(Debug, Clone, Copy, PartialEq, Eq, Structural)]
pub enum EncoderEvent {
    /// One detent clockwise.
    Clockwise,
    /// One detent counter-clockwise.
    CounterClockwise,
    /// The button went down.
    ButtonPressed,
    /// The button came back up.
    ButtonReleased,
    /// The button has been held for two seconds (or more).
    LongPress,
}

/// How long the button must be held for a long press, in microseconds.
pub const LONG_PRESS_US: u64 = 2_000_000;

/// The button's state as mathematical values.
pub struct ButtonView {
    /// Whether a press is reported and its release not yet.
    pub pressed: bool,
    /// When the press began, in microseconds (0 once a long press was
    /// reported).
    pub press_time: u64,
}

/// The push button with long-press detection.
pub struct ButtonState {
    pressed: bool,
    press_time: u64,
}

impl View for ButtonState {
    type V = ButtonView;

    closed spec fn view(&self) -> ButtonView {
        ButtonView { pressed: self.pressed, press_time: self.press_time }
    }
}

/// Microseconds from `start` to `now`, or 0 if `now` is earlier.
pub open spec fn elapsed_us(start: u64, now: u64) -> nat {
    if now >= start {
        (now - start) as nat
    } else {
        0
    }
}

impl ButtonState {
    /// A button reported up.
    pub fn new() -> (r: Self)
        ensures
            r@ == (ButtonView { pressed: false, press_time: 0 }),
    {
        ButtonState { pressed: false, press_time: 0 }
    }

    /// A falling edge at time `now_us`: reports a press, and notes its
    /// start, unless a press is reported already.
    pub fn on_falling_edge(&mut self, now_us: u64) -> (r: bool)
        ensures
            r == !old(self)@.pressed,
            final(self)@ == if old(self)@.pressed {
                old(self)@
            } else {
                ButtonView { pressed: true, press_time: now_us }
            },
    {
        if !self.pressed {
            self.pressed = true;
            self.press_time = now_us;
            true
        } else {
            false
        }
    }

    /// Checks at time `now_us` whether the held button makes a long press;
    /// after one, the start is reset to 0.
    pub fn check_long_press(&mut self, now_us: u64) -> (r: bool)
        ensures
            r == (old(self)@.pressed && elapsed_us(old(self)@.press_time, now_us) >= LONG_PRESS_US),
            final(self)@ == if r {
                ButtonView { pressed: true, press_time: 0 }
            } else {
                old(self)@
            },
    {
        if self.pressed {
            let elapsed = now_us.saturating_sub(self.press_time);
            if elapsed >= LONG_PRESS_US {
                self.press_time = 0;
                return true;
            }
        }
        false
    }

    /// Polls the pin: reports a release when a press is reported and the
    /// pin reads high again.
    pub fn poll_release(&mut self, pin_high: bool) -> (r: bool)
        ensures
            r == (old(self)@.pressed && pin_high),
            final(self)@ == (ButtonView { pressed: old(self)@.pressed && !pin_high, ..old(self)@ }),
    {
        if self.pressed && pin_high {
            self.pressed = false;
            true
        } else {
            false
        }
    }
}

/// Which of the awaited edges woke the input task.
#[derive(Debug, Clone, Copy, PartialEq, Eq, Structural)]
pub enum Wake {
    /// An edge on encoder pin A.
    PinA,
    /// An edge on encoder pin B.
    PinB,
    /// A falling edge on the button.
    Button,
}

/// A rotation reported by the quadrature decoder, as an event of this
/// firmware.
pub open spec fn rotation_event(ev: Option<crate::input::EncoderEvent>) -> Option<EncoderEvent> {
    match ev {
        Some(crate::input::EncoderEvent::Clockwise) => Some(EncoderEvent::Clockwise),
        Some(crate::input::EncoderEvent::CounterClockwise) => Some(EncoderEvent::CounterClockwise),
        _ => None,
    }
}

/// The decoder state of the encoder and its button.
pub struct InputDecoder {
    encoder: EncoderState,
    button: ButtonState,
}

/// The decoder as mathematical values.
pub struct InputView {
    /// The quadrature decoder.
    pub encoder: EncoderView,
    /// The button.
    pub button: ButtonView,
}

impl View for InputDecoder {
    type V = InputView;

    closed spec fn view(&self) -> InputView {
        InputView { encoder: self.encoder@, button: self.button@ }
    }
}

impl InputDecoder {
    /// Nothing counted, both encoder pins last seen low, the button up.
    pub fn new() -> (r: Self)
        ensures
            r.wf(),
            r@ == (InputView {
                encoder: EncoderView {
                    position: 0,
                    position_ext: 0,
                    position_ext_prev: 0,
                    old_state: 0,
                },
                button: ButtonView { pressed: false, press_time: 0 },
            }),
    {
        InputDecoder { encoder: EncoderState::new(), button: ButtonState::new() }
    }

    /// The decoder's invariant.
    pub open spec fn wf(&self) -> bool {
        encoder_wf(self@.encoder)
    }

    /// Handles the edge that woke the input task at time `now_us`; `a_high`
    /// and `b_high` are the encoder pins read right after it. A pin edge
    /// decodes the rotation; a button edge reports a press of a button that
    /// is up.
    pub fn on_wake(&mut self, wake: Wake, a_high: bool, b_high: bool, now_us: u64) -> (r: Option<
        EncoderEvent,
    >)
        requires
            old(self).wf(),
        ensures
            final(self).wf(),
            wake != Wake::Button ==> {
                let (e, ev) = rotation_step(old(self)@.encoder, a_high, b_high);
                &&& final(self)@.encoder == e
                &&& r == rotation_event(ev)
                &&& final(self)@.button == old(self)@.button
            },
            wake == Wake::Button ==> {
                &&& final(self)@.encoder == old(self)@.encoder
                &&& r == if old(self)@.button.pressed {
                    None
                } else {
                    Some(EncoderEvent::ButtonPressed)
                }
                &&& final(self)@.button == if old(self)@.button.pressed {
                    old(self)@.button
                } else {
                    ButtonView { pressed: true, press_time: now_us }
                }
            },
    {
        match wake {
            Wake::PinA | Wake::PinB => match self.encoder.on_pins(a_high, b_high) {
                Some(crate::input::EncoderEvent::Clockwise) => Some(EncoderEvent::Clockwise),
                Some(crate::input::EncoderEvent::CounterClockwise) => Some(
                    EncoderEvent::CounterClockwise,
                ),
                _ => None,
            },
            Wake::Button => {
                if self.button.on_falling_edge(now_us) {
                    Some(EncoderEvent::ButtonPressed)
                } else {
                    None
                }
            },
        }
    }

    /// After each wake-up, at time `now_us` with the button pin reading
    /// `button_high`: a long press if the button has been held long enough,
    /// then a release if it is up again.
    pub fn after_wake(&mut self, now_us: u64, button_high: bool) -> (r: Vec<EncoderEvent>)
        requires
            old(self).wf(),
        ensures
            final(self).wf(),
            r@ == (if old(self)@.button.pressed && elapsed_us(old(self)@.button.press_time, now_us)
                >= LONG_PRESS_US {
                seq![EncoderEvent::LongPress]
            } else {
                Seq::empty()
            }) + (if old(self)@.button.pressed && button_high {
                seq![EncoderEvent::ButtonReleased]
            } else {
                Seq::empty()
            }),
            final(self)@.encoder == old(self)@.encoder,
            final(self)@.button.pressed == (old(self)@.button.pressed && !button_high),
            final(self)@.button.press_time == if old(self)@.button.pressed && elapsed_us(
                old(self)@.button.press_time,
                now_us,
            ) >= LONG_PRESS_US {
                0
            } else {
                old(self)@.button.press_time
            },
    {
        let mut events: Vec<EncoderEvent> = Vec::new();
        if self.button.check_long_press(now_us) {
            events.push(EncoderEvent::LongPress);
        }
        if self.button.poll_release(button_high) {
            events.push(EncoderEvent::ButtonReleased);
        }
        assert(events@ =~= (if old(self)@.button.pressed && elapsed_us(
            old(self)@.button.press_time,
            now_us,
        ) >= LONG_PRESS_US {
            seq![EncoderEvent::LongPress]
        } else {
            Seq::empty()
        }) + (if old(self)@.button.pressed && button_high {
            seq![EncoderEvent::ButtonReleased]
        } else {
            Seq::empty()
        }));
        events
    }
}

/// Number of entries of the stand-alone menu.
pub const MENU_ITEM_COUNT: usize = 7;

/// The stand-alone menu: turning the encoder moves the selection.
pub struct App {
    selected: usize,
}

impl View for App {
    /// The selected entry.
    type V = nat;

    closed spec fn view(&self) -> nat {
        self.selected as nat
    }
}

impl App {
    /// The menu with its first entry selected.
    pub fn new() -> (r: Self)
        ensures
            r@ == 0,
    {
        App { selected: 0 }
    }

    /// The entries' labels, top to bottom.
    pub fn items() -> (r: Vec<&'static str>)
        ensures
            r@.len() == MENU_ITEM_COUNT,
            r@[0]@ == "Wi-Fi"@,
            r@[1]@ == "Bluetooth"@,
            r@[2]@ == "RFID/NFC"@,
            r@[3]@ == "Sub-GHz"@,
            r@[4]@ == "IR Remote"@,
            r@[5]@ == "GPS"@,
            r@[6]@ == "Settings"@,
    {
        vec!["Wi-Fi", "Bluetooth", "RFID/NFC", "Sub-GHz", "IR Remote", "GPS", "Settings"]
    }

    /// The selected entry.
    pub fn selected(&self) -> (r: usize)
        ensures
            r == self@,
    {
        self.selected
    }

    /// Handles one event: turning moves the selection within the menu;
    /// other events change nothing.
    pub fn handle_event(&mut self, event: EncoderEvent)
        ensures
            final(self)@ == match event {
                EncoderEvent::Clockwise => menu_down(old(self)@, MENU_ITEM_COUNT as nat),
                EncoderEvent::CounterClockwise => menu_up(old(self)@),
                _ => old(self)@,
            },
    {
        match event {
            EncoderEvent::Clockwise => {
                self.selected = select_down(self.selected, MENU_ITEM_COUNT);
            },
            EncoderEvent::CounterClockwise => {
                self.selected = select_up(self.selected);
            },
            _ => {},
        }
    }
}

impl Default for App {
    /// The menu with its first entry selected.
    fn default() -> (r: Self)
        ensures
            r@ == 0,
    {
        Self::new()
    }
}

} // verus!
