//! The main menu: BLE, Settings and SD Card.

use vstd::prelude::*;
use crate::app::{Command, Node, NodeResult, NodeView, ResultView};
use crate::app::ui_node::{UiNode, menu_down, menu_up, select_down, select_up};
use crate::app::ble::BleMenu;
use crate::app::settings::SettingsMenu;
use crate::app::sd_browser::{SdBrowserNode, sd_initial};
use crate::input::EncoderEvent;
use crate::sd_card::FileSystem;

verus! {

/// Number of entries of the main menu.
pub const ROOT_ITEM_COUNT: usize = 3;

/// The main menu.
#[derive(Debug)]
pub struct RootMenu {
    selected: usize,
}

impl View for RootMenu {
    /// The selected entry.
    type V = nat;

    closed spec fn view(&self) -> nat {
        self.selected as nat
    }
}

/// The selection after `event`.
pub open spec fn root_next(selected: nat, event: EncoderEvent) -> nat {
    match event {
        EncoderEvent::Clockwise => menu_down(selected, ROOT_ITEM_COUNT as nat),
        EncoderEvent::CounterClockwise => menu_up(selected),
        _ => selected,
    }
}

/// Where `event` navigates: confirming opens the selected entry's screen.
pub open spec fn root_result(selected: nat, event: EncoderEvent) -> ResultView {
    match event {
        EncoderEvent::ConfirmReleased => if selected == 0 {
            ResultView::Push(NodeView::Ble(0))
        } else if selected == 1 {
            ResultView::Push(NodeView::Settings(0))
        } else if selected == 2 {
            ResultView::Push(NodeView::SdBrowser(sd_initial()))
        } else {
            ResultView::Stay
        },
        _ => ResultView::Stay,
    }
}

impl RootMenu {
    /// The main menu with its first entry selected.
    pub fn new() -> (r: Self)
        ensures
            r@ == 0,
    {
        RootMenu { selected: 0 }
    }

    /// The selected entry.
    pub fn selected(&self) -> (r: usize)
        ensures
            r == self@,
    {
        self.selected
    }

    /// The entries' labels, top to bottom.
    pub fn items() -> (r: Vec<&'static str>)
        ensures
            r@.len() == ROOT_ITEM_COUNT,
            r@[0]@ == "BLE"@,
            r@[1]@ == "Settings"@,
            r@[2]@ == "SD Card"@,
    {
        vec!["BLE", "Settings", "SD Card"]
    }
}

impl UiNode for RootMenu {
    open spec fn wf(&self) -> bool {
        self@ < ROOT_ITEM_COUNT
    }

    fn label(&self) -> (r: &'static str)
        ensures
            r@ == "Main Menu"@,
    {
        "Main Menu"
    }

    fn handle_event<F: FileSystem>(&mut self, event: EncoderEvent, fs: &mut Option<F>) -> (r: (
        NodeResult,
        Vec<Command>,
    ))
        ensures
            final(self)@ == root_next(old(self)@, event),
            r.0@ == root_result(old(self)@, event),
            r.1@ == Seq::<Command>::empty(),
            *final(fs) == *old(fs),
    {
        match event {
            EncoderEvent::Clockwise => {
                self.selected = select_down(self.selected, ROOT_ITEM_COUNT);
            },
            EncoderEvent::CounterClockwise => {
                self.selected = select_up(self.selected);
            },
            EncoderEvent::ConfirmReleased => {
                return match self.selected {
                    0 => (NodeResult::Push(Node::Ble(BleMenu::new())), Vec::new()),
                    1 => (NodeResult::Push(Node::Settings(SettingsMenu::new())), Vec::new()),
                    2 => (NodeResult::Push(Node::SdBrowser(SdBrowserNode::new())), Vec::new()),
                    _ => (NodeResult::Stay, Vec::new()),
                };
            },
            _ => {},
        }
        (NodeResult::Stay, Vec::new())
    }
}

} // verus!
