//! Input events, as the loop hands them to a state.

use vstd::prelude::*;

verus! {

/// One input event of the platform.
#[derive(Copy, Clone, Debug, PartialEq, Eq, Structural)]
pub enum InputEvent {
    /// The request to end the program, such as a closed window.
    Quit,
    /// A pointer button went down at the given place.
    PointerDown { x: i32, y: i32 },
    /// A pointer button came up at the given place.
    PointerUp { x: i32, y: i32 },
    /// A key went down.
    KeyDown { code: i32 },
    /// A key came up.
    KeyUp { code: i32 },
    /// Any other event.
    Other,
}

impl InputEvent {
    /// Whether this is the quit signal.
    pub fn is_quit(&self) -> (quit: bool)
        ensures
            quit == (*self == InputEvent::Quit),
    {
        match self {
            InputEvent::Quit => true,
            _ => false,
        }
    }

    /// Whether a pointer button went down.
    pub fn is_pointer_down(&self) -> (down: bool)
        ensures
            down == (*self is PointerDown),
    {
        match self {
            InputEvent::PointerDown { .. } => true,
            _ => false,
        }
    }
}

} // verus!
