//! Backlight brightness: the PWM duty that a brightness level asks for.

use vstd::prelude::*;

verus! {

/// The PWM duty, in percent, for a brightness `level` in percent: levels
/// above 100 are capped at 100.
pub fn brightness_duty(level: u8) -> (r: u8)
    ensures
        r == if level < 100 {
            level
        } else {
            100
        },
{
    if level < 100 {
        level
    } else {
        100
    }
}

} // verus!
