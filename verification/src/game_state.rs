//! Terminal classification of a position.

use vstd::prelude::*;

verus! {

/// How a node's position stands: still open, drawn, or a proven mate with its
/// distance in plies. `Lost(0)` is checkmate on the board; positive distances
/// arise only from mate backpropagation.
#[derive(Clone, Copy, PartialEq, Eq, Structural, Debug)]
pub enum GameState {
    Unresolved,
    Drawn,
    Lost(u8),
    Won(u8),
}

impl GameState {
    /// Only terminal states block further expansion.
    pub open spec fn spec_is_terminal(self) -> bool {
        !(self is Unresolved)
    }

    pub fn is_terminal(self) -> (r: bool)
        ensures
            r == self.spec_is_terminal(),
    {
        !matches!(self, GameState::Unresolved)
    }
}

} // verus!
