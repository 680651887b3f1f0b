//! Why a field cannot be built.

use vstd::prelude::*;

verus! {

/// A configuration that no field can have.
#[derive(Clone, Copy, Debug, PartialEq, Eq, Structural)]
pub enum ConfigurationError {
    /// More mines were asked for than the grid has cells.
    TooManyMines,
    /// The width or the height is zero.
    EmptyGrid,
    /// The number of cells does not fit the index type.
    GridTooLarge,
    /// A mine was placed at an index that is no cell of the grid.
    MineOutOfRange,
}

/// The error for a grid of `width` by `height` cells with `number_of_mines`
/// mines to be scattered over it, or `None` if such a field exists. Too many
/// mines is the answer whenever the count exceeds the number of cells.
pub open spec fn config_error(width: int, height: int, number_of_mines: int) -> Option<
    ConfigurationError,
> {
    if number_of_mines > width * height {
        Some(ConfigurationError::TooManyMines)
    } else if width * height == 0 {
        Some(ConfigurationError::EmptyGrid)
    } else if width * height > usize::MAX {
        Some(ConfigurationError::GridTooLarge)
    } else {
        None
    }
}

/// The error for a grid of `width` by `height` cells with mines at the
/// indices in `layout`, or `None` if such a field exists.
pub open spec fn layout_error(width: int, height: int, layout: Seq<usize>) -> Option<
    ConfigurationError,
> {
    if width * height == 0 {
        Some(ConfigurationError::EmptyGrid)
    } else if width * height > usize::MAX {
        Some(ConfigurationError::GridTooLarge)
    } else if exists|k: int| 0 <= k < layout.len() && #[trigger] layout[k] >= width * height {
        Some(ConfigurationError::MineOutOfRange)
    } else {
        None
    }
}

} // verus!
