//! The mathematical model of a mine field.
//!
//! Contracts of the executable field speak of a [`MineField`]: the
//! dimensions, the row-major sequence of square states, the set of mined
//! indices and the time gathered since the last flag toggle.

use vstd::prelude::*;
use crate::neighbors::neighbor_mine_count;
use crate::square::SquareState;

verus! {

/// Nanoseconds that must be exceeded before a flag is toggled: one second.
pub const TOGGLE_PERIOD: u128 = 1_000_000_000;

/// A mine field as a mathematical value.
pub struct MineField {
    /// Number of columns.
    pub width: nat,
    /// Number of rows.
    pub height: nat,
    /// The squares in row-major order: the cell in column `x` of row `y` is
    /// at index `x + y * width`.
    pub grid: Seq<SquareState>,
    /// The indices of the cells that hold a mine.
    pub mines: Set<usize>,
    /// Nanoseconds gathered since the last toggle.
    pub timer: nat,
}

impl MineField {
    /// The number of cells.
    pub open spec fn cells(self) -> nat {
        self.width * self.height
    }

    /// The number of mines among the neighbors of cell `i`.
    pub open spec fn neighbor_mines(self, i: int) -> nat {
        neighbor_mine_count(self.width as int, self.height as int, self.mines, i)
    }

    /// The invariant of a field: positive dimensions, one square per cell,
    /// finitely many mines that all lie on the grid, a timer that has not
    /// passed the period, and in every open square the count of the mines
    /// around it.
    pub open spec fn wf(self) -> bool {
        &&& self.width > 0
        &&& self.height > 0
        &&& self.cells() <= usize::MAX
        &&& self.grid.len() == self.cells()
        &&& self.mines.finite()
        &&& forall|m: usize| #[trigger] self.mines.contains(m) ==> m < self.cells()
        &&& self.timer <= TOGGLE_PERIOD
        &&& forall|i: int|
            0 <= i < self.grid.len() ==> (#[trigger] self.grid[i] matches SquareState::Open(count)
                ==> count == self.neighbor_mines(i))
    }

    /// Whether `elapsed` more nanoseconds carry the timer past the period.
    pub open spec fn due(self, elapsed: nat) -> bool {
        self.timer + elapsed > TOGGLE_PERIOD
    }

    /// The field with the flag of cell `pick` flipped, if there is such a
    /// cell and it is closed.
    pub open spec fn toggled(self, pick: int) -> MineField {
        if 0 <= pick < self.grid.len() {
            MineField { grid: self.grid.update(pick, self.grid[pick].toggled()), ..self }
        } else {
            self
        }
    }

    /// The field after a tick of `elapsed` nanoseconds. While the timer stays
    /// within the period the time is gathered and nothing else changes. Once
    /// it passes the period, the flag of cell `pick` is toggled and the timer
    /// starts again from zero.
    pub open spec fn advanced(self, elapsed: nat, pick: int) -> MineField {
        if self.due(elapsed) {
            MineField { timer: 0, ..self.toggled(pick) }
        } else {
            MineField { timer: self.timer + elapsed, ..self }
        }
    }

    /// The field after a run of ticks, the `k`-th of `elapsed[k]` nanoseconds
    /// and with `picks[k]` as the cell to toggle should the timer fire.
    pub open spec fn advanced_all(self, elapsed: Seq<nat>, picks: Seq<int>) -> MineField
        decreases elapsed.len(),
    {
        if elapsed.len() == 0 || picks.len() == 0 {
            self
        } else {
            self.advanced_all(elapsed.drop_last(), picks.drop_last()).advanced(
                elapsed.last(),
                picks.last(),
            )
        }
    }
}

/// The sum of a run of durations.
pub open spec fn total(elapsed: Seq<nat>) -> nat
    decreases elapsed.len(),
{
    if elapsed.len() == 0 {
        0
    } else {
        total(elapsed.drop_last()) + elapsed.last()
    }
}

/// A tick keeps the invariant, the dimensions, the number of squares and the
/// mines, whatever time has passed and whichever cell is picked.
pub proof fn lemma_tick_keeps_layout(field: MineField, elapsed: nat, pick: int)
    requires
        field.wf(),
    ensures
        field.advanced(elapsed, pick).wf(),
        field.advanced(elapsed, pick).width == field.width,
        field.advanced(elapsed, pick).height == field.height,
        field.advanced(elapsed, pick).grid.len() == field.grid.len(),
        field.advanced(elapsed, pick).mines == field.mines,
{
    let after = field.advanced(elapsed, pick);
    assert forall|i: int| 0 <= i < after.grid.len() implies (#[trigger] after.grid[i] matches SquareState::Open(
        count,
    ) ==> count == after.neighbor_mines(i)) by {
        assert(after.grid[i] is Open ==> after.grid[i] == field.grid[i]);
    }
}

/// A run of ticks keeps the invariant, the dimensions, the number of squares
/// and the mines. The maps between indices and points depend on the width
/// alone, so they give the same answers before and after.
pub proof fn lemma_ticks_keep_layout(field: MineField, elapsed: Seq<nat>, picks: Seq<int>)
    requires
        field.wf(),
    ensures
        field.advanced_all(elapsed, picks).wf(),
        field.advanced_all(elapsed, picks).width == field.width,
        field.advanced_all(elapsed, picks).height == field.height,
        field.advanced_all(elapsed, picks).grid.len() == field.grid.len(),
        field.advanced_all(elapsed, picks).mines == field.mines,
    decreases elapsed.len(),
{
    if elapsed.len() != 0 && picks.len() != 0 {
        lemma_ticks_keep_layout(field, elapsed.drop_last(), picks.drop_last());
        lemma_tick_keeps_layout(
            field.advanced_all(elapsed.drop_last(), picks.drop_last()),
            elapsed.last(),
            picks.last(),
        );
    }
}

/// While the gathered time stays within the period, a run of ticks changes
/// nothing but the timer, which grows by the time that has passed.
pub proof fn lemma_ticks_within_period(field: MineField, elapsed: Seq<nat>, picks: Seq<int>)
    requires
        elapsed.len() == picks.len(),
        field.timer + total(elapsed) <= TOGGLE_PERIOD,
    ensures
        field.advanced_all(elapsed, picks) == (MineField {
            timer: field.timer + total(elapsed),
            ..field
        }),
    decreases elapsed.len(),
{
    if elapsed.len() != 0 {
        lemma_ticks_within_period(field, elapsed.drop_last(), picks.drop_last());
    }
}

/// The tick with which the gathered time first exceeds the period flips the
/// flag of the cell picked at that tick and of no other cell, and sets the
/// timer back to zero, below the period. The earlier ticks change no square.
pub proof fn lemma_toggle_when_period_passes(
    field: MineField,
    elapsed: Seq<nat>,
    picks: Seq<int>,
)
    requires
        field.wf(),
        elapsed.len() == picks.len(),
        elapsed.len() > 0,
        0 <= picks.last() < field.cells(),
        field.grid[picks.last()] is Closed,
        field.timer + total(elapsed.drop_last()) <= TOGGLE_PERIOD,
        field.timer + total(elapsed) > TOGGLE_PERIOD,
    ensures
        field.advanced_all(elapsed, picks).timer == 0,
        field.advanced_all(elapsed, picks).timer < TOGGLE_PERIOD,
        field.advanced_all(elapsed, picks).grid == field.grid.update(
            picks.last(),
            field.grid[picks.last()].toggled(),
        ),
        field.advanced_all(elapsed, picks).grid[picks.last()].flagged()
            != field.grid[picks.last()].flagged(),
        forall|i: int|
            0 <= i < field.cells() ==> (#[trigger] field.advanced_all(elapsed, picks).grid[i]
                != field.grid[i] <==> i == picks.last()),
{
    lemma_ticks_within_period(field, elapsed.drop_last(), picks.drop_last());
}

} // verus!
