//! The settings menu and the brightness screen.

use vstd::prelude::*;
use crate::app::{Command, Node, NodeResult, NodeView, ResultView};
use crate::app::ui_node::{UiNode, menu_down, menu_up, select_down, select_up};
use crate::input::EncoderEvent;
use crate::sd_card::FileSystem;

verus! {

/// Number of entries of the settings menu.
pub const SETTINGS_ITEM_COUNT: usize = 1;

/// The settings menu.
#[derive(Debug)]
pub struct SettingsMenu {
    selected: usize,
}

impl View for SettingsMenu {
    /// The selected entry.
    type V = nat;

    closed spec fn view(&self) -> nat {
        self.selected as nat
    }
}

/// The selection after `event`.
pub open spec fn settings_next(selected: nat, event: EncoderEvent) -> nat {
    match event {
        EncoderEvent::Clockwise => menu_down(selected, SETTINGS_ITEM_COUNT as nat),
        EncoderEvent::CounterClockwise => menu_up(selected),
        _ => selected,
    }
}

/// Where `event` navigates: confirming the first entry opens the brightness
/// screen (at full brightness), back leaves the menu.
pub open spec fn settings_result(selected: nat, event: EncoderEvent) -> ResultView {
    match event {
        EncoderEvent::ConfirmReleased => if selected == 0 {
            ResultView::Push(NodeView::Brightness(100))
        } else {
            ResultView::Stay
        },
        EncoderEvent::BackPressed => ResultView::Pop,
        _ => ResultView::Stay,
    }
}

impl SettingsMenu {
    /// The settings menu with its first entry selected.
    pub fn new() -> (r: Self)
        ensures
            r@ == 0,
    {
        SettingsMenu { selected: 0 }
    }

    /// The selected entry.
    pub fn selected(&self) -> (r: usize)
        ensures
            r == self@,
    {
        self.selected
    }

    /// The entries' labels, top to bottom.
    pub fn items() -> (r: Vec<&'static str>)
        ensures
            r@.len() == SETTINGS_ITEM_COUNT,
            r@[0]@ == "Brightness"@,
    {
        vec!["Brightness"]
    }
}

impl UiNode for SettingsMenu {
    open spec fn wf(&self) -> bool {
        self@ < SETTINGS_ITEM_COUNT
    }

    fn label(&self) -> (r: &'static str)
        ensures
            r@ == "Settings"@,
    {
        "Settings"
    }

    fn handle_event<F: FileSystem>(&mut self, event: EncoderEvent, fs: &mut Option<F>) -> (r: (
        NodeResult,
        Vec<Command>,
    ))
        ensures
            final(self)@ == settings_next(old(self)@, event),
            r.0@ == settings_result(old(self)@, event),
            r.1@ == Seq::<Command>::empty(),
            *final(fs) == *old(fs),
    {
        match event {
            EncoderEvent::Clockwise => {
                self.selected = select_down(self.selected, SETTINGS_ITEM_COUNT);
            },
            EncoderEvent::CounterClockwise => {
                self.selected = select_up(self.selected);
            },
            EncoderEvent::ConfirmReleased => {
                return match self.selected {
                    0 => (NodeResult::Push(Node::Brightness(BrightnessNode::new())), Vec::new()),
                    _ => (NodeResult::Stay, Vec::new()),
                };
            },
            EncoderEvent::BackPressed => {
                return (NodeResult::Pop, Vec::new());
            },
            _ => {},
        }
        (NodeResult::Stay, Vec::new())
    }
}

/// The brightness screen: the encoder sets the backlight between 1 and 100.
#[derive(Debug)]
pub struct BrightnessNode {
    brightness: u8,
}

impl View for BrightnessNode {
    /// The brightness shown, in percent.
    type V = nat;

    closed spec fn view(&self) -> nat {
        self.brightness as nat
    }
}

/// The brightness after `event`: one step up or down, kept within 1..=100.
pub open spec fn brightness_next(brightness: nat, event: EncoderEvent) -> nat {
    match event {
        EncoderEvent::Clockwise => if brightness < 100 {
            brightness + 1
        } else {
            brightness
        },
        EncoderEvent::CounterClockwise => if brightness > 1 {
            (brightness - 1) as nat
        } else {
            brightness
        },
        _ => brightness,
    }
}

/// Where `event` navigates: confirm and back both leave the screen.
pub open spec fn brightness_result(event: EncoderEvent) -> ResultView {
    match event {
        EncoderEvent::ConfirmReleased | EncoderEvent::BackPressed => ResultView::Pop,
        _ => ResultView::Stay,
    }
}

/// The commands of `event`: turning sets the backlight to the new level.
pub open spec fn brightness_commands(brightness: nat, event: EncoderEvent) -> Seq<Command> {
    match event {
        EncoderEvent::Clockwise | EncoderEvent::CounterClockwise => seq![
            Command::Backlight(brightness_next(brightness, event) as u8),
        ],
        _ => Seq::empty(),
    }
}

impl BrightnessNode {
    /// The brightness screen, starting at full brightness.
    pub fn new() -> (r: Self)
        ensures
            r@ == 100,
    {
        BrightnessNode { brightness: 100 }
    }

    /// The brightness shown, in percent.
    pub fn brightness(&self) -> (r: u8)
        ensures
            r == self@,
    {
        self.brightness
    }
}

impl UiNode for BrightnessNode {
    open spec fn wf(&self) -> bool {
        1 <= self@ <= 100
    }

    fn label(&self) -> (r: &'static str)
        ensures
            r@ == "Brightness"@,
    {
        "Brightness"
    }

    fn handle_event<F: FileSystem>(&mut self, event: EncoderEvent, fs: &mut Option<F>) -> (r: (
        NodeResult,
        Vec<Command>,
    ))
        ensures
            final(self)@ == brightness_next(old(self)@, event),
            r.0@ == brightness_result(event),
            r.1@ == brightness_commands(old(self)@, event),
            *final(fs) == *old(fs),
    {
        match event {
            EncoderEvent::Clockwise => {
                if self.brightness < 100 {
                    self.brightness = self.brightness + 1;
                }
                return (NodeResult::Stay, vec![Command::Backlight(self.brightness)]);
            },
            EncoderEvent::CounterClockwise => {
                if self.brightness > 1 {
                    self.brightness = self.brightness - 1;
                }
                return (NodeResult::Stay, vec![Command::Backlight(self.brightness)]);
            },
            EncoderEvent::ConfirmReleased | EncoderEvent::BackPressed => {
                return (NodeResult::Pop, Vec::new());
            },
            _ => {},
        }
        (NodeResult::Stay, Vec::new())
    }
}

} // verus!
