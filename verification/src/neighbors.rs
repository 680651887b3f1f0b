//! The neighborhood of a cell and the mines in it.
//!
//! A cell has up to eight neighbors: the cells one step away along a row, a
//! column or a diagonal. The grid does not wrap, so cells on an edge or in a
//! corner have fewer.

use vstd::prelude::*;
use vstd::set_lib::lemma_len_subset;
use crate::geometry::{
    column_of, index_of, lemma_index_of_valid_point, lemma_index_round_trip,
    lemma_point_of_valid_index, lemma_point_round_trip, row_of, valid_index, valid_point,
};

verus! {

/// Whether the cells `i` and `j` are distinct and at most one column and one
/// row apart.
pub open spec fn adjacent(width: int, i: int, j: int) -> bool {
    &&& i != j
    &&& -1 <= column_of(width, j) - column_of(width, i) <= 1
    &&& -1 <= row_of(width, j) - row_of(width, i) <= 1
}

/// The cells of the grid that are adjacent to cell `i`.
pub open spec fn neighborhood(width: int, height: int, i: int) -> Set<int> {
    Set::new(|j: int| valid_index(width, height, j) && adjacent(width, i, j))
}

/// The neighbors of cell `i` that hold a mine.
pub open spec fn mined_neighbors(width: int, height: int, mines: Set<usize>, i: int) -> Set<int> {
    Set::new(
        |j: int| valid_index(width, height, j) && adjacent(width, i, j) && mines.contains(j as usize),
    )
}

/// The number of mines among the neighbors of cell `i`.
pub open spec fn neighbor_mine_count(width: int, height: int, mines: Set<usize>, i: int) -> nat {
    mined_neighbors(width, height, mines, i).len()
}

/// The cell reached from cell `i` by the `k`-th of the nine steps of a three
/// by three window, taken row by row: `None` for the middle step, which is
/// the cell itself, and for a step that leaves the grid.
pub open spec fn neighbor_at(width: int, height: int, i: int, k: int) -> Option<int> {
    let x = column_of(width, i) + k % 3 - 1;
    let y = row_of(width, i) + k / 3 - 1;
    if k != 4 && valid_point(width, height, x, y) {
        Some(index_of(width, x, y))
    } else {
        None
    }
}

/// The neighbors of cell `i` that the first `k` steps of the window reach.
pub open spec fn neighbors_within(width: int, height: int, i: int, k: nat) -> Set<int>
    decreases k,
{
    if k == 0 {
        Set::empty()
    } else {
        let rest = neighbors_within(width, height, i, (k - 1) as nat);
        match neighbor_at(width, height, i, k - 1) {
            Some(j) => rest.insert(j),
            None => rest,
        }
    }
}

/// The mined cells among those that the first `k` steps of the window reach.
pub open spec fn mined_within(width: int, height: int, mines: Set<usize>, i: int, k: nat) -> Set<
    int,
>
    decreases k,
{
    if k == 0 {
        Set::empty()
    } else {
        let rest = mined_within(width, height, mines, i, (k - 1) as nat);
        match neighbor_at(width, height, i, k - 1) {
            Some(j) => if mines.contains(j as usize) {
                rest.insert(j)
            } else {
                rest
            },
            None => rest,
        }
    }
}

/// A step of the window that stays on the grid reaches a neighbor, and the
/// neighbor tells the step.
pub proof fn lemma_neighbor_at(width: int, height: int, i: int, k: int)
    requires
        width > 0,
        valid_index(width, height, i),
        0 <= k < 9,
    ensures
        match neighbor_at(width, height, i, k) {
            Some(j) => {
                &&& valid_index(width, height, j)
                &&& adjacent(width, i, j)
                &&& column_of(width, j) - column_of(width, i) == k % 3 - 1
                &&& row_of(width, j) - row_of(width, i) == k / 3 - 1
            },
            None => true,
        },
{
    let x = column_of(width, i) + k % 3 - 1;
    let y = row_of(width, i) + k / 3 - 1;
    if k != 4 && valid_point(width, height, x, y) {
        lemma_index_of_valid_point(width, height, x, y);
        lemma_point_round_trip(width, height, x, y);
        lemma_index_round_trip(width, height, i);
        let j = index_of(width, x, y);
        if j == i {
            assert(k % 3 == 1 && k / 3 == 1);
        }
    }
}

/// Every neighbor is reached by exactly the step that its offset names.
pub proof fn lemma_neighbor_step(width: int, height: int, i: int, j: int) -> (k: int)
    requires
        width > 0,
        valid_index(width, height, i),
        neighborhood(width, height, i).contains(j),
    ensures
        0 <= k < 9,
        neighbor_at(width, height, i, k) == Some(j),
{
    let dx = column_of(width, j) - column_of(width, i);
    let dy = row_of(width, j) - row_of(width, i);
    let k = (dy + 1) * 3 + (dx + 1);
    lemma_point_of_valid_index(width, height, j);
    lemma_index_round_trip(width, height, j);
    if k == 4 {
        lemma_index_round_trip(width, height, i);
    }
    k
}

/// What the first `k` steps reach are the neighbors whose step is below `k`.
pub proof fn lemma_neighbors_within(width: int, height: int, i: int, k: nat)
    requires
        width > 0,
        valid_index(width, height, i),
        k <= 9,
    ensures
        neighbors_within(width, height, i, k).finite(),
        neighbors_within(width, height, i, k).len() <= k,
        forall|j: int| #[trigger]
            neighbors_within(width, height, i, k).contains(j) <==> exists|s: int|
                0 <= s < k && #[trigger] neighbor_at(width, height, i, s) == Some(j),
    decreases k,
{
    if k > 0 {
        lemma_neighbors_within(width, height, i, (k - 1) as nat);
        let rest = neighbors_within(width, height, i, (k - 1) as nat);
        let now = neighbors_within(width, height, i, k);
        assert forall|j: int| #[trigger] now.contains(j) <==> exists|s: int|
            0 <= s < k && #[trigger] neighbor_at(width, height, i, s) == Some(j) by {
            if now.contains(j) {
                if rest.contains(j) {
                    let s = choose|s: int|
                        0 <= s < k - 1 && #[trigger] neighbor_at(width, height, i, s) == Some(j);
                    assert(0 <= s < k && neighbor_at(width, height, i, s) == Some(j));
                } else {
                    assert(neighbor_at(width, height, i, k - 1) == Some(j));
                }
            }
            if exists|s: int| 0 <= s < k && #[trigger] neighbor_at(width, height, i, s) == Some(j) {
                let s = choose|s: int|
                    0 <= s < k && #[trigger] neighbor_at(width, height, i, s) == Some(j);
                if s < k - 1 {
                    assert(rest.contains(j));
                }
            }
        }
    }
}

/// The nine steps of the window reach the whole neighborhood.
pub proof fn lemma_window_covers_neighborhood(width: int, height: int, i: int)
    requires
        width > 0,
        valid_index(width, height, i),
    ensures
        neighbors_within(width, height, i, 9) == neighborhood(width, height, i),
{
    lemma_neighbors_within(width, height, i, 9);
    let reached = neighbors_within(width, height, i, 9);
    let all = neighborhood(width, height, i);
    assert forall|j: int| reached.contains(j) <==> all.contains(j) by {
        if reached.contains(j) {
            let s = choose|s: int|
                0 <= s < 9 && #[trigger] neighbor_at(width, height, i, s) == Some(j);
            lemma_neighbor_at(width, height, i, s);
        }
        if all.contains(j) {
            let s = lemma_neighbor_step(width, height, i, j);
        }
    }
    assert(reached =~= all);
}

/// The mined cells within the first `k` steps are the mined neighbors whose
/// step is below `k`; a further step adds at most the cell that it reaches.
pub proof fn lemma_mined_within(width: int, height: int, mines: Set<usize>, i: int, k: nat)
    requires
        width > 0,
        valid_index(width, height, i),
        k <= 9,
    ensures
        mined_within(width, height, mines, i, k).finite(),
        mined_within(width, height, mines, i, k).len() <= k,
        forall|j: int| #[trigger]
            mined_within(width, height, mines, i, k).contains(j) <==> mines.contains(j as usize)
                && neighbors_within(width, height, i, k).contains(j),
    decreases k,
{
    if k > 0 {
        lemma_mined_within(width, height, mines, i, (k - 1) as nat);
    }
}

/// A step that reaches a cell reaches one that no earlier step has reached.
pub proof fn lemma_step_is_fresh(width: int, height: int, i: int, k: nat)
    requires
        width > 0,
        valid_index(width, height, i),
        k < 9,
    ensures
        match neighbor_at(width, height, i, k as int) {
            Some(j) => !neighbors_within(width, height, i, k).contains(j),
            None => true,
        },
{
    lemma_neighbors_within(width, height, i, k);
    match neighbor_at(width, height, i, k as int) {
        Some(j) => {
            if neighbors_within(width, height, i, k).contains(j) {
                let s = choose|s: int|
                    0 <= s < k && #[trigger] neighbor_at(width, height, i, s) == Some(j);
                lemma_neighbor_at(width, height, i, s);
                lemma_neighbor_at(width, height, i, k as int);
                assert(s % 3 == k % 3 && s / 3 == k / 3);
                assert(false);
            }
        },
        None => {},
    }
}

/// The mined cells that the nine steps reach are the mined neighbors.
pub proof fn lemma_window_covers_mined_neighbors(
    width: int,
    height: int,
    mines: Set<usize>,
    i: int,
)
    requires
        width > 0,
        valid_index(width, height, i),
    ensures
        mined_within(width, height, mines, i, 9) == mined_neighbors(width, height, mines, i),
{
    lemma_mined_within(width, height, mines, i, 9);
    lemma_window_covers_neighborhood(width, height, i);
    assert(mined_within(width, height, mines, i, 9) =~= mined_neighbors(width, height, mines, i));
}

/// The number of the first `k` steps of the window that stay on the grid.
pub open spec fn steps_on_grid(width: int, height: int, i: int, k: nat) -> nat
    decreases k,
{
    if k == 0 {
        0
    } else {
        let rest = steps_on_grid(width, height, i, (k - 1) as nat);
        if neighbor_at(width, height, i, k - 1) is Some {
            rest + 1
        } else {
            rest
        }
    }
}

/// The first `k` steps reach as many cells as there are steps among them
/// that stay on the grid.
pub proof fn lemma_steps_reach_distinct_cells(width: int, height: int, i: int, k: nat)
    requires
        width > 0,
        valid_index(width, height, i),
        k <= 9,
    ensures
        neighbors_within(width, height, i, k).len() == steps_on_grid(width, height, i, k),
    decreases k,
{
    if k > 0 {
        lemma_steps_reach_distinct_cells(width, height, i, (k - 1) as nat);
        lemma_neighbors_within(width, height, i, (k - 1) as nat);
        lemma_step_is_fresh(width, height, i, (k - 1) as nat);
    }
}

/// Whether cell `i` lies in the first or the last column.
pub open spec fn on_side(width: int, i: int) -> bool {
    column_of(width, i) == 0 || column_of(width, i) == width - 1
}

/// Whether cell `i` lies in the first or the last row.
pub open spec fn on_end(width: int, height: int, i: int) -> bool {
    row_of(width, i) == 0 || row_of(width, i) == height - 1
}

/// A cell has at most eight neighbors, a cell on an edge at most five, and a
/// cell in a corner at most three.
pub proof fn lemma_neighborhood_size(width: int, height: int, i: int)
    requires
        width > 0,
        valid_index(width, height, i),
    ensures
        neighborhood(width, height, i).finite(),
        neighborhood(width, height, i).len() <= 8,
        on_side(width, i) || on_end(width, height, i) ==> neighborhood(width, height, i).len()
            <= 5,
        on_side(width, i) && on_end(width, height, i) ==> neighborhood(width, height, i).len()
            <= 3,
{
    lemma_window_covers_neighborhood(width, height, i);
    lemma_neighbors_within(width, height, i, 9);
    lemma_steps_reach_distinct_cells(width, height, i, 9);
    reveal_with_fuel(steps_on_grid, 10);
}

/// The count of mines around a cell is the number of mined cells in its
/// neighborhood, so it is at most the size of the neighborhood: eight, five
/// on an edge, three in a corner.
pub proof fn lemma_neighbor_mine_count_bounds(width: int, height: int, mines: Set<usize>, i: int)
    requires
        width > 0,
        valid_index(width, height, i),
    ensures
        mined_neighbors(width, height, mines, i).finite(),
        mined_neighbors(width, height, mines, i).subset_of(neighborhood(width, height, i)),
        neighbor_mine_count(width, height, mines, i) <= neighborhood(width, height, i).len(),
        0 <= neighbor_mine_count(width, height, mines, i) <= 8,
        on_side(width, i) || on_end(width, height, i) ==> neighbor_mine_count(
            width,
            height,
            mines,
            i,
        ) <= 5,
        on_side(width, i) && on_end(width, height, i) ==> neighbor_mine_count(
            width,
            height,
            mines,
            i,
        ) <= 3,
{
    lemma_neighborhood_size(width, height, i);
    lemma_len_subset(
        mined_neighbors(width, height, mines, i),
        neighborhood(width, height, i),
    );
}

} // verus!
