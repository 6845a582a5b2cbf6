//! The BLE menu, the BLE keyboard screen and the BLE spam screen.

use vstd::prelude::*;
use crate::app::{Command, Node, NodeResult, NodeView, ResultView};
use crate::app::ui_node::{UiNode, menu_down, menu_up, select_down, select_up};
use crate::ble_hid::{BleControlEvent, BleKeyEvent};
use crate::input::EncoderEvent;
use crate::sd_card::FileSystem;

verus! {

/// Number of entries of the BLE menu.
pub const BLE_ITEM_COUNT: usize = 2;

/// The BLE menu.
#[derive(Debug)]
pub struct BleMenu {
    selected: usize,
}

impl View for BleMenu {
    /// The selected entry.
    type V = nat;

    closed spec fn view(&self) -> nat {
        self.selected as nat
    }
}

/// The selection after `event`.
pub open spec fn ble_next(selected: nat, event: EncoderEvent) -> nat {
    match event {
        EncoderEvent::Clockwise => menu_down(selected, BLE_ITEM_COUNT as nat),
        EncoderEvent::CounterClockwise => menu_up(selected),
        _ => selected,
    }
}

/// Where `event` navigates: confirming opens the keyboard or the spam
/// screen, back leaves the menu.
pub open spec fn ble_result(selected: nat, event: EncoderEvent) -> ResultView {
    match event {
        EncoderEvent::ConfirmReleased => if selected == 0 {
            ResultView::Push(NodeView::BleKeyboard)
        } else if selected == 1 {
            ResultView::Push(NodeView::BleSpam)
        } else {
            ResultView::Stay
        },
        EncoderEvent::BackPressed => ResultView::Pop,
        _ => ResultView::Stay,
    }
}

impl BleMenu {
    /// The BLE menu with its first entry selected.
    pub fn new() -> (r: Self)
        ensures
            r@ == 0,
    {
        BleMenu { selected: 0 }
    }

    /// The selected entry.
    pub fn selected(&self) -> (r: usize)
        ensures
            r == self@,
    {
        self.selected
    }

    /// The entries' labels, top to bottom.
    pub fn items() -> (r: Vec<&'static str>)
        ensures
            r@.len() == BLE_ITEM_COUNT,
            r@[0]@ == "BLE Keyboard"@,
            r@[1]@ == "BLE Spam"@,
    {
        vec!["BLE Keyboard", "BLE Spam"]
    }
}

impl UiNode for BleMenu {
    open spec fn wf(&self) -> bool {
        self@ < BLE_ITEM_COUNT
    }

    fn label(&self) -> (r: &'static str)
        ensures
            r@ == "BLE"@,
    {
        "BLE"
    }

    fn handle_event<F: FileSystem>(&mut self, event: EncoderEvent, fs: &mut Option<F>) -> (r: (
        NodeResult,
        Vec<Command>,
    ))
        ensures
            final(self)@ == ble_next(old(self)@, event),
            r.0@ == ble_result(old(self)@, event),
            r.1@ == Seq::<Command>::empty(),
            *final(fs) == *old(fs),
    {
        match event {
            EncoderEvent::Clockwise => {
                self.selected = select_down(self.selected, BLE_ITEM_COUNT);
            },
            EncoderEvent::CounterClockwise => {
                self.selected = select_up(self.selected);
            },
            EncoderEvent::ConfirmReleased => {
                return match self.selected {
                    0 => (NodeResult::Push(Node::BleKeyboard(BleKeyboardNode::new())), Vec::new()),
                    1 => (NodeResult::Push(Node::BleSpam(BleSpamNode::new())), Vec::new()),
                    _ => (NodeResult::Stay, Vec::new()),
                };
            },
            EncoderEvent::BackPressed => {
                return (NodeResult::Pop, Vec::new());
            },
            _ => {},
        }
        (NodeResult::Stay, Vec::new())
    }
}

/// The BLE keyboard screen: turning the encoder types arrow keys.
#[derive(Debug)]
pub struct BleKeyboardNode;

/// The key command of `event` on the keyboard screen: clockwise is the down
/// arrow, counter-clockwise the up arrow.
pub open spec fn keyboard_commands(event: EncoderEvent) -> Seq<Command> {
    match event {
        EncoderEvent::Clockwise => seq![Command::BleKey(BleKeyEvent::Down)],
        EncoderEvent::CounterClockwise => seq![Command::BleKey(BleKeyEvent::Up)],
        _ => Seq::empty(),
    }
}

/// Where `event` navigates on a screen that only back leaves.
pub open spec fn back_only_result(event: EncoderEvent) -> ResultView {
    match event {
        EncoderEvent::BackPressed => ResultView::Pop,
        _ => ResultView::Stay,
    }
}

impl BleKeyboardNode {
    /// The keyboard screen.
    pub fn new() -> Self {
        BleKeyboardNode
    }
}

impl UiNode for BleKeyboardNode {
    open spec fn wf(&self) -> bool {
        true
    }

    fn label(&self) -> (r: &'static str)
        ensures
            r@ == "BLE Keyboard"@,
    {
        "BLE Keyboard"
    }

    fn on_enter<F: FileSystem>(&mut self, fs: &mut Option<F>) -> (r: Vec<Command>)
        ensures
            r@ == seq![Command::BleControl(BleControlEvent::Start)],
            *final(fs) == *old(fs),
    {
        vec![Command::BleControl(BleControlEvent::Start)]
    }

    fn on_exit(&mut self) -> (r: Vec<Command>)
        ensures
            r@ == seq![Command::BleControl(BleControlEvent::Stop)],
    {
        vec![Command::BleControl(BleControlEvent::Stop)]
    }

    fn handle_event<F: FileSystem>(&mut self, event: EncoderEvent, fs: &mut Option<F>) -> (r: (
        NodeResult,
        Vec<Command>,
    ))
        ensures
            r.0@ == back_only_result(event),
            r.1@ == keyboard_commands(event),
            *final(fs) == *old(fs),
    {
        match event {
            EncoderEvent::Clockwise => {
                return (NodeResult::Stay, vec![Command::BleKey(BleKeyEvent::Down)]);
            },
            EncoderEvent::CounterClockwise => {
                return (NodeResult::Stay, vec![Command::BleKey(BleKeyEvent::Up)]);
            },
            EncoderEvent::BackPressed => {
                return (NodeResult::Pop, Vec::new());
            },
            _ => {},
        }
        (NodeResult::Stay, Vec::new())
    }
}

/// The BLE spam screen (a placeholder page).
#[derive(Debug)]
pub struct BleSpamNode;

impl BleSpamNode {
    /// The spam screen.
    pub fn new() -> Self {
        BleSpamNode
    }
}

impl UiNode for BleSpamNode {
    open spec fn wf(&self) -> bool {
        true
    }

    fn label(&self) -> (r: &'static str)
        ensures
            r@ == "BLE Spam"@,
    {
        "BLE Spam"
    }

    fn handle_event<F: FileSystem>(&mut self, event: EncoderEvent, fs: &mut Option<F>) -> (r: (
        NodeResult,
        Vec<Command>,
    ))
        ensures
            r.0@ == back_only_result(event),
            r.1@ == Seq::<Command>::empty(),
            *final(fs) == *old(fs),
    {
        match event {
            EncoderEvent::BackPressed => {
                return (NodeResult::Pop, Vec::new());
            },
            _ => {},
        }
        (NodeResult::Stay, Vec::new())
    }
}

} // verus!
