//! The executable mine field.

use std::collections::HashSet;
use vstd::prelude::*;
use crate::geometry::{
    column_of, index_of, lemma_index_of_valid_point, lemma_point_of_valid_index, row_of,
    valid_index, valid_point, Point,
};
use crate::error::{config_error, layout_error, ConfigurationError};
use crate::model::{MineField, TOGGLE_PERIOD};
use crate::neighbors::{
    lemma_mined_within, lemma_neighbor_at, lemma_step_is_fresh,
    lemma_window_covers_mined_neighbors, mined_within, neighbor_at,
};
use crate::random::gen_index;
use crate::sampling::{all_below, lemma_placed, place_mine};
use crate::render::{cell_commands, DrawCommand, DrawKind, GRID_SIZE};
use crate::square::SquareState;

verus! {

/// A mine field: the grid of squares, the mines under it, and the timer of
/// the periodic flag toggle.
#[derive(Debug)]
pub struct GameState {
    game_size: (usize, usize),
    grid: Vec<SquareState>,
    mines: HashSet<usize>,
    timer: u128,
}

impl View for GameState {
    type V = MineField;

    closed spec fn view(&self) -> MineField {
        MineField {
            width: self.game_size.0 as nat,
            height: self.game_size.1 as nat,
            grid: self.grid@,
            mines: self.mines@,
            timer: self.timer as nat,
        }
    }
}

/// What a tick tells the loop that drives the field.
#[derive(Clone, Copy, Debug, PartialEq, Eq, Structural)]
pub enum UpdateResult {
    /// Keep driving this state, and keep input from the states beneath it.
    Block,
    /// Leave this state.
    Finish,
}

/// Moves a coordinate by `step - 1`, that is one back, not at all or one
/// forth, and gives it back if it stays below `limit`.
fn shifted(at: usize, step: usize, limit: usize) -> (moved: Option<usize>)
    requires
        at < limit,
        step < 3,
    ensures
        moved == if 0 <= at + step - 1 < limit {
            Some((at + step - 1) as usize)
        } else {
            None
        },
{
    if step == 0 {
        if at > 0 {
            Some(at - 1)
        } else {
            None
        }
    } else if step == 1 {
        Some(at)
    } else if at + 1 < limit {
        Some(at + 1)
    } else {
        None
    }
}

/// The grid of a fresh field: every square closed and without a flag.
pub open spec fn closed_grid(cells: nat) -> Seq<SquareState> {
    Seq::new(cells, |i: int| SquareState::Closed(false))
}

impl GameState {
    /// Whether the field meets the invariant of its model.
    pub open spec fn wf(&self) -> bool {
        self@.wf()
    }

    /// Builds a field of `game_size.0` columns and `game_size.1` rows with
    /// `number_of_mines` mines at distinct cells chosen at random, every
    /// square closed and without a flag, and the timer at zero.
    ///
    /// Fails if there are more mines than cells, if a dimension is zero, or
    /// if the number of cells does not fit a `usize`.
    pub fn new(game_size: (usize, usize), number_of_mines: usize) -> (made: Result<
        GameState,
        ConfigurationError,
    >)
        ensures
            match made {
                Ok(state) => {
                    &&& config_error(game_size.0 as int, game_size.1 as int, number_of_mines as int)
                        is None
                    &&& state.wf()
                    &&& state@.width == game_size.0
                    &&& state@.height == game_size.1
                    &&& state@.grid == closed_grid(state@.cells())
                    &&& state@.mines.len() == number_of_mines
                    &&& all_below(state@.mines, state@.cells() as int)
                    &&& state@.timer == 0
                },
                Err(error) => config_error(
                    game_size.0 as int,
                    game_size.1 as int,
                    number_of_mines as int,
                ) == Some(error),
            },
    {
        let cells: usize = match game_size.0.checked_mul(game_size.1) {
            Some(cells) => cells,
            None => {
                return Err(ConfigurationError::GridTooLarge);
            },
        };
        if number_of_mines > cells {
            return Err(ConfigurationError::TooManyMines);
        }
        if cells == 0 {
            return Err(ConfigurationError::EmptyGrid);
        }
        assert(game_size.0 > 0 && game_size.1 > 0) by (nonlinear_arith)
            requires
                game_size.0 * game_size.1 > 0,
        ;
        let grid = vec![SquareState::Closed(false); cells];
        let mut mines = HashSet::<usize>::new();
        let mut rng = rand::thread_rng();
        let mut limit: usize = cells - number_of_mines;
        while limit < cells
            invariant
                cells - number_of_mines <= limit <= cells,
                mines@.finite(),
                mines@.len() == limit - (cells - number_of_mines),
                all_below(mines@, limit as int),
            decreases cells - limit,
        {
            let draw = gen_index(&mut rng, limit + 1);
            proof {
                lemma_placed(mines@, limit, draw);
            }
            place_mine(&mut mines, limit, draw);
            limit += 1;
        }
        let state = GameState { game_size, grid, mines, timer: 0 };
        assert(state@.grid =~= closed_grid(state@.cells()));
        Ok(state)
    }

    /// Builds a field of `game_size.0` columns and `game_size.1` rows with a
    /// mine at each index in `layout`, every square closed and without a
    /// flag, and the timer at zero. An index that occurs twice counts once.
    ///
    /// Fails if a dimension is zero, if the number of cells does not fit a
    /// `usize`, or if an index in `layout` is no cell of the grid.
    pub fn with_mines(game_size: (usize, usize), layout: &Vec<usize>) -> (made: Result<
        GameState,
        ConfigurationError,
    >)
        ensures
            match made {
                Ok(state) => {
                    &&& layout_error(game_size.0 as int, game_size.1 as int, layout@) is None
                    &&& state.wf()
                    &&& state@.width == game_size.0
                    &&& state@.height == game_size.1
                    &&& state@.grid == closed_grid(state@.cells())
                    &&& state@.mines == layout@.to_set()
                    &&& state@.timer == 0
                },
                Err(error) => layout_error(game_size.0 as int, game_size.1 as int, layout@) == Some(
                    error,
                ),
            },
    {
        let cells: usize = match game_size.0.checked_mul(game_size.1) {
            Some(cells) => cells,
            None => {
                assert(game_size.0 * game_size.1 != 0);
                return Err(ConfigurationError::GridTooLarge);
            },
        };
        if cells == 0 {
            return Err(ConfigurationError::EmptyGrid);
        }
        assert(game_size.0 > 0 && game_size.1 > 0) by (nonlinear_arith)
            requires
                game_size.0 * game_size.1 > 0,
        ;
        let mut mines = HashSet::<usize>::new();
        let mut k: usize = 0;
        while k < layout.len()
            invariant
                k <= layout.len(),
                cells == game_size.0 * game_size.1,
                cells > 0,
                mines@.finite(),
                mines@ == layout@.take(k as int).to_set(),
                forall|j: int| 0 <= j < k ==> #[trigger] layout@[j] < cells,
            decreases layout.len() - k,
        {
            let index = layout[k];
            if index >= cells {
                assert(layout@[k as int] >= game_size.0 * game_size.1);
                return Err(ConfigurationError::MineOutOfRange);
            }
            mines.insert(index);
            proof {
                broadcast use vstd::std_specs::hash::group_hash_axioms;

                let before = layout@.take(k as int);
                let now = layout@.take(k + 1);
                assert(now =~= before.push(index));
                assert forall|m: usize| now.to_set().contains(m) <==> before.to_set().insert(
                    index,
                ).contains(m) by {
                    if now.to_set().contains(m) {
                        let at = choose|at: int| 0 <= at < now.len() && now[at] == m;
                        if at < k {
                            assert(before[at] == m);
                        }
                    }
                    if before.to_set().contains(m) {
                        let at = choose|at: int| 0 <= at < before.len() && before[at] == m;
                        assert(now[at] == m);
                    }
                    if m == index {
                        assert(now[k as int] == m);
                    }
                }
                assert(now.to_set() =~= before.to_set().insert(index));
            }
            k += 1;
        }
        assert(layout@.take(k as int) =~= layout@);
        let grid = vec![SquareState::Closed(false); cells];
        let state = GameState { game_size, grid, mines, timer: 0 };
        assert(state@.grid =~= closed_grid(state@.cells()));
        assert forall|m: usize| #[trigger] state@.mines.contains(m) implies m < state@.cells() by {
            let at = choose|at: int| 0 <= at < layout@.len() && layout@[at] == m;
            assert(layout@[at] < cells);
        }
        Ok(state)
    }

    /// The number of columns and the number of rows.
    pub fn game_size(&self) -> (size: (usize, usize))
        ensures
            size.0 == self@.width,
            size.1 == self@.height,
    {
        self.game_size
    }

    /// The number of mines in the field.
    pub fn number_of_mines(&self) -> (count: usize)
        requires
            self.wf(),
        ensures
            count == self@.mines.len(),
    {
        broadcast use vstd::std_specs::hash::group_hash_axioms;

        self.mines.len()
    }

    /// Whether there is a mine at index `i`.
    pub fn is_mine(&self, i: usize) -> (mined: bool)
        ensures
            mined == self@.mines.contains(i),
    {
        broadcast use vstd::std_specs::hash::group_hash_axioms;

        self.mines.contains(&i)
    }

    /// The state of the square at index `i`.
    pub fn square(&self, i: usize) -> (state: SquareState)
        requires
            self.wf(),
            valid_index(self@.width as int, self@.height as int, i as int),
        ensures
            state == self@.grid[i as int],
    {
        self.grid[i]
    }

    /// The nanoseconds gathered since the last toggle.
    pub fn timer(&self) -> (nanos: u128)
        ensures
            nanos == self@.timer,
    {
        self.timer
    }

    /// The point of the cell with index `i`: its column is `i` modulo the
    /// width, its row is `i` divided by the width.
    pub fn index_to_point(&self, i: usize) -> (point: Point)
        requires
            self.wf(),
            valid_index(self@.width as int, self@.height as int, i as int),
        ensures
            point.x == column_of(self@.width as int, i as int),
            point.y == row_of(self@.width as int, i as int),
            valid_point(self@.width as int, self@.height as int, point.x as int, point.y as int),
    {
        proof {
            lemma_point_of_valid_index(self@.width as int, self@.height as int, i as int);
        }
        Point { x: i % self.game_size.0, y: i / self.game_size.0 }
    }

    /// The index of the cell at `point`: its column plus its row times the
    /// width.
    pub fn point_to_index(&self, point: Point) -> (i: usize)
        requires
            self.wf(),
            valid_point(self@.width as int, self@.height as int, point.x as int, point.y as int),
        ensures
            i == index_of(self@.width as int, point.x as int, point.y as int),
            valid_index(self@.width as int, self@.height as int, i as int),
    {
        proof {
            lemma_index_of_valid_point(
                self@.width as int,
                self@.height as int,
                point.x as int,
                point.y as int,
            );
            assert(0 <= point.y * self.game_size.0 <= point.x + point.y * self.game_size.0)
                by (nonlinear_arith)
                requires
                    point.y >= 0,
                    point.x >= 0,
                    self.game_size.0 > 0,
            ;
        }
        point.x + point.y * self.game_size.0
    }

    /// Counts the mines among the neighbors of cell `i`: the cells one step
    /// away along a row, a column or a diagonal that lie on the grid.
    pub fn count_neighbors(&self, i: usize) -> (count: usize)
        requires
            self.wf(),
            valid_index(self@.width as int, self@.height as int, i as int),
        ensures
            count == self@.neighbor_mines(i as int),
            count <= 8,
    {
        broadcast use vstd::std_specs::hash::group_hash_axioms;

        let ghost width = self@.width as int;
        let ghost height = self@.height as int;
        let point = self.index_to_point(i);
        let mut count: usize = 0;
        let mut k: usize = 0;
        while k < 9
            invariant
                self.wf(),
                width == self@.width,
                height == self@.height,
                valid_index(width, height, i as int),
                point.x == column_of(width, i as int),
                point.y == row_of(width, i as int),
                valid_point(width, height, point.x as int, point.y as int),
                k <= 9,
                count == mined_within(width, height, self@.mines, i as int, k as nat).len(),
                count <= k,
                k > 4 ==> count < k,
            decreases 9 - k,
        {
            proof {
                lemma_mined_within(width, height, self@.mines, i as int, k as nat);
                lemma_step_is_fresh(width, height, i as int, k as nat);
                lemma_neighbor_at(width, height, i as int, k as int);
            }
            if k != 4 {
                let across = shifted(point.x, k % 3, self.game_size.0);
                let down = shifted(point.y, k / 3, self.game_size.1);
                match (across, down) {
                    (Some(x), Some(y)) => {
                        let j = self.point_to_index(Point { x, y });
                        assert(neighbor_at(width, height, i as int, k as int) == Some(j as int));
                        if self.mines.contains(&j) {
                            count += 1;
                        }
                    },
                    _ => {
                        assert(neighbor_at(width, height, i as int, k as int) is None);
                    },
                }
            }
            k += 1;
        }
        proof {
            lemma_window_covers_mined_neighbors(width, height, self@.mines, i as int);
        }
        count
    }

    /// Whether `elapsed` more nanoseconds carry the timer past the period.
    pub fn is_due(&self, elapsed: u128) -> (due: bool)
        requires
            self.wf(),
        ensures
            due == self@.due(elapsed as nat),
    {
        elapsed > TOGGLE_PERIOD - self.timer
    }

    /// Advances the field by `elapsed` nanoseconds, with `pick` as the cell
    /// whose flag is toggled should the timer pass the period. The time is
    /// gathered until it exceeds the period; the tick that exceeds it flips
    /// the flag of cell `pick`, unless that cell is open, and sets the timer
    /// back to zero.
    pub fn update_with(&mut self, elapsed: u128, pick: usize) -> (signal: UpdateResult)
        requires
            old(self).wf(),
            valid_index(old(self)@.width as int, old(self)@.height as int, pick as int),
        ensures
            final(self).wf(),
            final(self)@ == old(self)@.advanced(elapsed as nat, pick as int),
            signal == UpdateResult::Block,
    {
        if self.is_due(elapsed) {
            let square = self.grid[pick];
            self.grid.set(pick, square.toggle());
            self.timer = 0;
        } else {
            self.timer = self.timer + elapsed;
        }
        UpdateResult::Block
    }

    /// Advances the field by `elapsed` nanoseconds. The time is gathered
    /// until it exceeds the period; the tick that exceeds it flips the flag
    /// of a cell chosen at random, unless that cell is open, and sets the
    /// timer back to zero.
    pub fn update(&mut self, elapsed: u128) -> (signal: UpdateResult)
        requires
            old(self).wf(),
        ensures
            final(self).wf(),
            exists|pick: int|
                valid_index(old(self)@.width as int, old(self)@.height as int, pick)
                    && final(self)@ == #[trigger] old(self)@.advanced(elapsed as nat, pick),
            signal == UpdateResult::Block,
    {
        assert(self@.width * self@.height > 0) by (nonlinear_arith)
            requires
                self@.width > 0,
                self@.height > 0,
        ;
        let pick: usize = if self.is_due(elapsed) {
            let mut rng = rand::thread_rng();
            gen_index(&mut rng, self.grid.len())
        } else {
            0
        };
        self.update_with(elapsed, pick)
    }

    /// Describes the frame: for each cell in row-major order a square if the
    /// cell is closed, then the flag if it is flagged. Open cells are not
    /// drawn.
    pub fn draw_squares(&self) -> (commands: Vec<DrawCommand>)
        requires
            self.wf(),
        ensures
            commands@ == self@.commands(),
    {
        let mut commands: Vec<DrawCommand> = Vec::new();
        let mut i: usize = 0;
        while i < self.grid.len()
            invariant
                self.wf(),
                i <= self.grid.len(),
                commands@ == self@.commands_before(i as nat),
            decreases self.grid.len() - i,
        {
            let point = self.index_to_point(i);
            let x: u128 = point.x as u128 * GRID_SIZE;
            let y: u128 = point.y as u128 * GRID_SIZE;
            let ghost before = commands@;
            match self.grid[i] {
                SquareState::Closed(flag) => {
                    commands.push(DrawCommand { kind: DrawKind::Square, x, y });
                    if flag {
                        commands.push(DrawCommand { kind: DrawKind::Flag, x, y });
                    }
                },
                SquareState::Open(_) => {},
            }
            proof {
                let added = cell_commands(self@.width as int, i as int, self.grid@[i as int]);
                assert(commands@ =~= before + added);
            }
            i += 1;
        }
        commands
    }
}

} // verus!
