//! The state of one square of the grid.

use vstd::prelude::*;

verus! {

/// The state of a square.
///
/// A square is either closed, and the flag says whether a marker has been set
/// on it, or open, and the number is the count of mines among its neighbors.
#[derive(Clone, Copy, Debug, PartialEq, Eq, Structural)]
pub enum SquareState {
    Closed(bool),
    Open(u8),
}

impl SquareState {
    /// The state after the flag of a closed square is flipped; an open square
    /// has no flag and stays as it is.
    pub open spec fn toggled(self) -> SquareState {
        match self {
            SquareState::Closed(flag) => SquareState::Closed(!flag),
            SquareState::Open(count) => SquareState::Open(count),
        }
    }

    /// Flips the flag of a closed square and leaves an open square unchanged.
    pub fn toggle(self) -> (next: SquareState)
        ensures
            next == self.toggled(),
    {
        match self {
            SquareState::Closed(flag) => SquareState::Closed(!flag),
            SquareState::Open(count) => SquareState::Open(count),
        }
    }

    /// Whether the square is closed and carries a flag.
    pub open spec fn flagged(self) -> bool {
        self == SquareState::Closed(true)
    }
}

} // verus!
