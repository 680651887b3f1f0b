//! Row-major geometry of a grid: flat indices, points, and their inverse maps.

use vstd::prelude::*;
use vstd::arithmetic::div_mod::{lemma_fundamental_div_mod, lemma_fundamental_div_mod_converse};
use vstd::arithmetic::mul::lemma_mul_inequality;

verus! {

/// A cell position: column `x` and row `y`, both counted from zero.
#[derive(Clone, Copy, Debug, PartialEq, Eq, Structural)]
pub struct Point {
    pub x: usize,
    pub y: usize,
}

/// Whether `i` is the flat index of a cell of a `width` by `height` grid.
pub open spec fn valid_index(width: int, height: int, i: int) -> bool {
    0 <= i < width * height
}

/// Whether column `x` and row `y` lie inside a `width` by `height` grid.
pub open spec fn valid_point(width: int, height: int, x: int, y: int) -> bool {
    0 <= x < width && 0 <= y < height
}

/// Column of the cell with flat index `i`.
pub open spec fn column_of(width: int, i: int) -> int {
    i % width
}

/// Row of the cell with flat index `i`.
pub open spec fn row_of(width: int, i: int) -> int {
    i / width
}

/// Flat index of the cell in column `x` of row `y`.
pub open spec fn index_of(width: int, x: int, y: int) -> int {
    x + y * width
}

/// The point of a valid index is a valid point.
pub proof fn lemma_point_of_valid_index(width: int, height: int, i: int)
    requires
        width > 0,
        valid_index(width, height, i),
    ensures
        valid_point(width, height, column_of(width, i), row_of(width, i)),
{
    lemma_fundamental_div_mod(i, width);
    let y = i / width;
    if y >= height {
        lemma_mul_inequality(height, y, width);
        assert(width * y == y * width) by (nonlinear_arith);
        assert(width * height == height * width) by (nonlinear_arith);
    }
}

/// The index of a valid point is a valid index.
pub proof fn lemma_index_of_valid_point(width: int, height: int, x: int, y: int)
    requires
        valid_point(width, height, x, y),
    ensures
        valid_index(width, height, index_of(width, x, y)),
{
    assert(y * width >= 0) by (nonlinear_arith)
        requires
            y >= 0,
            width > 0,
    ;
    assert(x + y * width < width * height) by (nonlinear_arith)
        requires
            0 <= x < width,
            0 <= y < height,
    ;
}

/// Mapping a valid index to its point and back gives the index again.
pub proof fn lemma_index_round_trip(width: int, height: int, i: int)
    requires
        width > 0,
        valid_index(width, height, i),
    ensures
        index_of(width, column_of(width, i), row_of(width, i)) == i,
{
    lemma_fundamental_div_mod(i, width);
    assert(width * (i / width) == (i / width) * width) by (nonlinear_arith);
}

/// Mapping a valid point to its index and back gives the point again.
pub proof fn lemma_point_round_trip(width: int, height: int, x: int, y: int)
    requires
        valid_point(width, height, x, y),
    ensures
        column_of(width, index_of(width, x, y)) == x,
        row_of(width, index_of(width, x, y)) == y,
{
    assert(width * y == y * width) by (nonlinear_arith);
    lemma_fundamental_div_mod_converse(index_of(width, x, y), width, y, x);
}

} // verus!
