//! The abstract actions that the input layer hands to the game.

use vstd::prelude::*;

verus! {

/// What the player asked for, independent of the key that was pressed.
#[derive(Clone, Copy, Debug, PartialEq, Eq, Structural)]
pub enum Actions {
    Select,
    Up,
    Down,
    Right,
    Left,
    Exit,
    Pass,
}

} // verus!
