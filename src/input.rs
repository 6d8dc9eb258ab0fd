//! The gamepad: one byte, one bit per button.
use vstd::prelude::*;

verus! {

pub const BUTTON_1: u8 = 1;
pub const BUTTON_LEFT: u8 = 16;
pub const BUTTON_RIGHT: u8 = 32;
pub const BUTTON_UP: u8 = 64;
pub const BUTTON_DOWN: u8 = 128;

/// Whether any bit of `button` is set in `gamepad`.
pub open spec fn pressed(gamepad: u8, button: u8) -> bool {
    gamepad & button != 0
}

/// Whether any bit of `button` is set in `gamepad` and clear in `last_gamepad`.
pub open spec fn newly_pressed(gamepad: u8, last_gamepad: u8, button: u8) -> bool {
    gamepad & !last_gamepad & button != 0
}

pub fn is_pressed(gamepad: u8, button: u8) -> (r: bool)
    ensures
        r == pressed(gamepad, button),
{
    gamepad & button != 0
}

pub fn is_newly_pressed(gamepad: u8, last_gamepad: u8, button: u8) -> (r: bool)
    ensures
        r == newly_pressed(gamepad, last_gamepad, button),
{
    gamepad & !last_gamepad & button != 0
}

} // verus!
