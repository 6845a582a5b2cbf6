//! USB HID keyboard usage codes.

use vstd::prelude::*;

verus! {

/// The up arrow.
pub const KEY_UP: u8 = 0x52;

/// The down arrow.
pub const KEY_DOWN: u8 = 0x51;

} // verus!
