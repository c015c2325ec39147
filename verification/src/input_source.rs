//! The device families an input can come from.
use vstd::prelude::*;

verus! {

/// The family of device that produced an input.
#[derive(PartialEq, Eq, Structural, Hash, Debug, Clone, Copy)]
pub enum InputSource {
    Gamepad,
    Keyboard,
    Mouse,
}

impl InputSource {
    /// Whether this source is a gamepad.
    pub fn is_gamepad(&self) -> (gamepad: bool)
        ensures
            gamepad <==> *self == InputSource::Gamepad,
    {
        matches!(self, InputSource::Gamepad)
    }

    /// Whether this source is a keyboard.
    pub fn is_keyboard(&self) -> (keyboard: bool)
        ensures
            keyboard <==> *self == InputSource::Keyboard,
    {
        matches!(self, InputSource::Keyboard)
    }

    /// Whether this source is a mouse.
    pub fn is_mouse(&self) -> (mouse: bool)
        ensures
            mouse <==> *self == InputSource::Mouse,
    {
        matches!(self, InputSource::Mouse)
    }
}

} // verus!
