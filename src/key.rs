use vstd::prelude::*;

verus! {

/// A key press, as the views read it.
#[derive(Clone, Copy, Debug, PartialEq, Eq, Structural)]
pub enum Key {
    /// A printable character.
    Char(char),
    /// A character typed with Ctrl held.
    Ctrl(char),
    Up,
    Down,
    Enter,
    /// Any other key.
    Other,
}

} // verus!
