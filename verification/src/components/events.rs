//! Keys, and what a component answers when it is handed one.

use vstd::prelude::*;

verus! {

/// A key of the keyboard.
#[derive(Clone, Copy, Debug, PartialEq, Eq, Structural)]
pub enum Key {
    Char(char),
    Up,
    Down,
    Left,
    Right,
    Enter,
    Esc,
    Tab,
    Unknown,
}

/// Whether a component took the key for itself.
#[derive(Clone, Copy, Debug, PartialEq, Eq, Structural)]
pub enum EventState {
    Consumed,
    NotConsumed,
}

/// The part of the screen that has the focus.
#[derive(Clone, Copy, Debug, PartialEq, Eq, Structural)]
pub enum Focus {
    MenuContainer,
    HomeTabBody,
    FileTabBody,
}

} // verus!
