use vstd::prelude::*;

verus! {

/// The raw value of a released button.
pub const BUTTON_RELEASED: u32 = 0;

/// The raw value of a pressed button.
pub const BUTTON_PRESSED: u32 = 1;

/// Whether a pointer button went down or up.
#[derive(Debug, Clone, Copy, PartialEq, Eq, Structural)]
pub enum ButtonState {
    Released,
    Pressed,
}

impl ButtonState {
    /// Any value but the released one counts as pressed.
    pub fn from_raw(state: u32) -> (r: ButtonState)
        ensures
            r == (if state == BUTTON_RELEASED {
                ButtonState::Released
            } else {
                ButtonState::Pressed
            }),
    {
        if state == BUTTON_RELEASED {
            ButtonState::Released
        } else {
            ButtonState::Pressed
        }
    }

    pub fn as_raw(&self) -> (r: u32)
        ensures
            r == (if *self == ButtonState::Released {
                BUTTON_RELEASED
            } else {
                BUTTON_PRESSED
            }),
    {
        match self {
            ButtonState::Released => BUTTON_RELEASED,
            ButtonState::Pressed => BUTTON_PRESSED,
        }
    }
}

} // verus!
