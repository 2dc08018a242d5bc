use vstd::prelude::*;

verus! {

/// A key press, as the screens of the manager tell keys apart.
#[derive(Clone, Copy, Debug, PartialEq, Eq, Structural)]
pub enum Key {
    Char(char),
    Enter,
    Esc,
    Backspace,
    Delete,
    Left,
    Right,
    Up,
    Down,
    Home,
    End,
    /// Any other key; no screen reacts to it.
    Other,
}

} // verus!
