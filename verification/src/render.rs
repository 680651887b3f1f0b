//! What a field asks the host to draw.
//!
//! The field issues no draw call itself. It describes each frame as a list of
//! commands, cell by cell in row-major order, and the host carries them out
//! with its own square and flag image.

use vstd::prelude::*;
use crate::geometry::{column_of, row_of};
use crate::model::MineField;
use crate::square::SquareState;

verus! {

/// Side of a square on the screen, in pixels.
pub const GRID_SIZE: u128 = 32;

/// What to draw.
#[derive(Clone, Copy, Debug, PartialEq, Eq, Structural)]
pub enum DrawKind {
    /// A filled square that covers the cell.
    Square,
    /// The flag image, scaled to the side of a square.
    Flag,
}

/// One draw command: what to draw, and the pixel at which its top left
/// corner goes.
#[derive(Clone, Copy, Debug, PartialEq, Eq, Structural)]
pub struct DrawCommand {
    pub kind: DrawKind,
    pub x: u128,
    pub y: u128,
}

/// The command that draws `kind` over the cell with index `i`: the position
/// of the cell on the grid, scaled by the side of a square.
pub open spec fn command_at(width: int, i: int, kind: DrawKind) -> DrawCommand {
    DrawCommand {
        kind,
        x: (column_of(width, i) * GRID_SIZE) as u128,
        y: (row_of(width, i) * GRID_SIZE) as u128,
    }
}

/// The commands for one cell: a square for a closed cell, followed by the
/// flag if the cell is flagged, and nothing for an open cell.
pub open spec fn cell_commands(width: int, i: int, square: SquareState) -> Seq<DrawCommand> {
    match square {
        SquareState::Closed(flag) => if flag {
            seq![command_at(width, i, DrawKind::Square), command_at(width, i, DrawKind::Flag)]
        } else {
            seq![command_at(width, i, DrawKind::Square)]
        },
        SquareState::Open(_) => Seq::empty(),
    }
}

impl MineField {
    /// The commands for the first `n` cells, in row-major order.
    pub open spec fn commands_before(self, n: nat) -> Seq<DrawCommand>
        decreases n,
    {
        if n == 0 {
            Seq::empty()
        } else {
            self.commands_before((n - 1) as nat) + cell_commands(
                self.width as int,
                n - 1,
                self.grid[n - 1],
            )
        }
    }

    /// The commands for the whole field.
    pub open spec fn commands(self) -> Seq<DrawCommand> {
        self.commands_before(self.grid.len())
    }
}

} // verus!
