//! Logic core of a minesweeper-style grid game.
//!
//! The crate owns the grid, the mine layout and the per-cell state of a
//! mine field, and it proves the geometry, the neighbor counting, the
//! periodic flag toggle and the draw list against a mathematical model of
//! the field. It performs no drawing and reads no clock: the host hands in
//! the elapsed time and issues the draw commands that the field describes.

pub mod error;
pub mod field;
pub mod geometry;
pub mod model;
pub mod neighbors;
pub mod random;
pub mod render;
pub mod sampling;
pub mod square;

pub use error::ConfigurationError;
pub use field::{GameState, UpdateResult};
pub use geometry::Point;
pub use model::{MineField, TOGGLE_PERIOD};
pub use render::{DrawCommand, DrawKind, GRID_SIZE};
pub use square::SquareState;
