//! Drawing a set of distinct cells, one draw per cell.
//!
//! To choose `k` of `n` cells the limit runs from `n - k` up to `n - 1`, and
//! for each limit one number is drawn from zero to the limit, both included.
//! The draw is taken unless it has been taken before; then the limit itself
//! is taken, which no earlier step could have reached. Each step adds exactly
//! one cell, so `k` draws give `k` distinct cells, and uniform draws make
//! every set of `k` cells equally likely.

use std::collections::HashSet;
use vstd::prelude::*;

verus! {

/// The set after the step with limit `limit` and draw `draw`.
pub open spec fn placed(mines: Set<usize>, limit: usize, draw: usize) -> Set<usize> {
    if mines.contains(draw) {
        mines.insert(limit)
    } else {
        mines.insert(draw)
    }
}

/// Whether all members of the set lie below `bound`.
pub open spec fn all_below(mines: Set<usize>, bound: int) -> bool {
    forall|m: usize| #[trigger] mines.contains(m) ==> m < bound
}

/// A step whose draw does not exceed the limit, on a set below the limit,
/// adds exactly one cell and stays within the limit.
pub proof fn lemma_placed(mines: Set<usize>, limit: usize, draw: usize)
    requires
        mines.finite(),
        all_below(mines, limit as int),
        draw <= limit,
    ensures
        placed(mines, limit, draw).finite(),
        placed(mines, limit, draw).len() == mines.len() + 1,
        all_below(placed(mines, limit, draw), limit + 1),
{
}

/// Takes one step: adds `draw` to the set, or `limit` if `draw` is in it.
pub fn place_mine(mines: &mut HashSet<usize>, limit: usize, draw: usize)
    ensures
        final(mines)@ == placed(old(mines)@, limit, draw),
{
    broadcast use vstd::std_specs::hash::group_hash_axioms;

    if mines.contains(&draw) {
        mines.insert(limit);
    } else {
        mines.insert(draw);
    }
}

} // verus!
