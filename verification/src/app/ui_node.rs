//! The interface that every screen implements, and the computations that
//! the shared screen layouts need.

use vstd::prelude::*;
use vstd::string::*;
use crate::app::{Command, NodeResult};
use crate::input::EncoderEvent;
use crate::sd_card::{FileSystem, decimal_text};

verus! {

/// One screen of the interface (a menu or a function page). Screens are kept
/// on a stack: entering a sub-menu pushes one, leaving it pops it.
pub trait UiNode: Sized {
    /// The screen's invariant, which its constructor establishes and its
    /// methods keep.
    spec fn wf(&self) -> bool;

    /// The screen's name, as a menu shows it.
    fn label(&self) -> &'static str;

    /// Called when the screen is pushed; returns the hardware commands that
    /// entering it needs. By default a screen needs none and does not change.
    fn on_enter<F: FileSystem>(&mut self, fs: &mut Option<F>) -> (r: Vec<Command>)
        requires
            old(self).wf(),
        ensures
            final(self).wf(),
        default_ensures
            r@ == Seq::<Command>::empty(),
            *final(self) == *old(self),
            *final(fs) == *old(fs),
    {
        Vec::new()
    }

    /// Called when the screen is popped; returns the hardware commands that
    /// leaving it needs. By default a screen needs none and does not change.
    fn on_exit(&mut self) -> (r: Vec<Command>)
        requires
            old(self).wf(),
        ensures
            final(self).wf(),
        default_ensures
            r@ == Seq::<Command>::empty(),
            *final(self) == *old(self),
    {
        Vec::new()
    }

    /// Handles one input event: where to navigate, and which hardware
    /// commands to run.
    fn handle_event<F: FileSystem>(&mut self, event: EncoderEvent, fs: &mut Option<F>) -> (r: (
        NodeResult,
        Vec<Command>,
    ))
        requires
            old(self).wf(),
        ensures
            final(self).wf(),
    ;
}

/// The selection after moving down a menu of `len` items: the next item,
/// or the same one at the bottom.
pub open spec fn menu_down(selected: nat, len: nat) -> nat {
    if selected + 1 < len {
        selected + 1
    } else {
        selected
    }
}

/// The selection after moving up a menu: the previous item, or the same one
/// at the top.
pub open spec fn menu_up(selected: nat) -> nat {
    if selected > 0 {
        (selected - 1) as nat
    } else {
        selected
    }
}

/// Moves a menu selection down, within `len` items.
pub fn select_down(selected: usize, len: usize) -> (r: usize)
    requires
        len > 0,
    ensures
        r == menu_down(selected as nat, len as nat),
{
    if selected < len - 1 {
        selected + 1
    } else {
        selected
    }
}

/// Moves a menu selection up.
pub fn select_up(selected: usize) -> (r: usize)
    ensures
        r == menu_up(selected as nat),
{
    if selected > 0 {
        selected - 1
    } else {
        selected
    }
}

/// The rectangle `(x, y, width, height)` of the brightness pop-up on a
/// screen of `width` x `height` cells: at most 50 cells wide and 2 cells
/// narrower than the screen on each side, 3 rows high, centred.
pub open spec fn popup_area_spec(width: nat, height: nat) -> (nat, nat, nat, nat) {
    let inner = if width >= 4 {
        (width - 4) as nat
    } else {
        0nat
    };
    let w = if inner < 50 {
        inner
    } else {
        50nat
    };
    let x = ((width - w) as nat) / 2;
    let y = if height >= 3 {
        ((height - 3) as nat) / 2
    } else {
        0nat
    };
    (x, y, w, 3nat)
}

/// Where the brightness pop-up goes on a screen of the given size.
pub fn popup_area(width: u16, height: u16) -> (r: (u16, u16, u16, u16))
    ensures
        (r.0 as nat, r.1 as nat, r.2 as nat, r.3 as nat) == popup_area_spec(
            width as nat,
            height as nat,
        ),
{
    let inner = width.saturating_sub(4);
    let popup_width = if inner < 50 {
        inner
    } else {
        50
    };
    let popup_height: u16 = 3;
    let popup_x = width.saturating_sub(popup_width) / 2;
    let popup_y = height.saturating_sub(popup_height) / 2;
    (popup_x, popup_y, popup_width, popup_height)
}

/// The gauge text of the brightness pop-up: `"Brightness: <b>/100"`.
pub open spec fn brightness_label_spec(brightness: nat) -> Seq<char> {
    "Brightness: "@ + decimal_text(brightness) + "/100"@
}

/// The gauge text of the brightness pop-up.
pub fn brightness_label(brightness: u8) -> (r: String)
    ensures
        r@ == brightness_label_spec(brightness as nat),
{
    let mut s = String::from_str("Brightness: ");
    crate::sd_card::push_decimal(&mut s, brightness as u64);
    s.append("/100");
    s
}

} // verus!
