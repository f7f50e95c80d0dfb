//! What the windowing layer reports to the simulation.
use vstd::prelude::*;
use crate::controls::{KeyCode, MouseButton};
use crate::vec2::Vec2;

verus! {

/// An event of the window: the mouse moved, or a key or a mouse button went
/// down or up.
#[derive(Clone, Copy, Debug, PartialEq, Eq, Structural)]
pub enum ExternalEvent {
    MouseMotion { delta: Vec2 },
    KeyboardInput { key_code: KeyCode, pressed: bool },
    MouseInput { button: MouseButton, pressed: bool },
}

impl ExternalEvent {
    /// What a keyboard report amounts to: nothing where the report is
    /// synthetic or names no key, so that all platforms behave alike.
    pub open spec fn keyboard_spec(key_code: Option<KeyCode>, pressed: bool, is_synthetic: bool)
        -> Option<ExternalEvent> {
        if is_synthetic || key_code is None {
            None
        } else {
            Some(ExternalEvent::KeyboardInput { key_code: key_code->0, pressed })
        }
    }

    /// The event that a keyboard report amounts to, if any.
    pub fn from_keyboard_input(key_code: Option<KeyCode>, pressed: bool, is_synthetic: bool)
        -> (event: Option<ExternalEvent>)
        ensures
            event == Self::keyboard_spec(key_code, pressed, is_synthetic),
    {
        if is_synthetic {
            None
        } else {
            match key_code {
                Some(key_code) => Some(ExternalEvent::KeyboardInput { key_code, pressed }),
                None => None,
            }
        }
    }
}

} // verus!
