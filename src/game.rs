use vstd::prelude::*;

use crate::cell::{Cell, CellType};
use crate::count::{
    grid_mines, lemma_grid_mines_put, lemma_grid_mines_take, lemma_row_mines_take, mine_bit,
    row_mines,
};
use crate::random::random_below;
use crate::error::GameError;
use crate::grid::{put, well_placed, Grid};
use crate::neighbours::{
    lemma_neighbours_upto_len, mines_at, neighbour_positions, neighbours_upto, offset_of,
};

verus! {

/// What a game is, abstractly: its cells row by row, its size, the number of
/// mines to place, and whether it is over.
pub struct GameView {
    pub cells: Seq<Seq<Cell>>,
    pub rows: nat,
    pub cols: nat,
    pub num_mines: nat,
    pub is_game_over: bool,
}

impl GameView {
    /// A new game: fresh cells and nothing over yet.
    pub open spec fn fresh(rows: nat, cols: nat, num_mines: nat) -> GameView {
        GameView {
            cells: Seq::new(rows, |r: int| Seq::new(cols, |c: int| Cell::fresh(r, c))),
            rows,
            cols,
            num_mines,
            is_game_over: false,
        }
    }

    pub open spec fn in_bounds(self, r: int, c: int) -> bool {
        0 <= r < self.rows && 0 <= c < self.cols
    }

    /// The flags of the cell at `(r, c)`.
    pub open spec fn at(self, r: int, c: int) -> CellType {
        self.cells[r][c].cell_type
    }

    /// How many cells hold a mine.
    pub open spec fn mine_count(self) -> nat {
        grid_mines(self.cells)
    }

    /// The same game with the flags of `(r, c)` replaced by `t`.
    pub open spec fn with_type(self, r: int, c: int, t: CellType) -> GameView {
        GameView { cells: put(self.cells, r, c, self.cells[r][c].with_type(t)), ..self }
    }

    pub open spec fn flagged(self, r: int, c: int) -> GameView {
        self.with_type(r, c, CellType { is_flagged: true, ..self.at(r, c) })
    }

    pub open spec fn revealed(self, r: int, c: int) -> GameView {
        self.with_type(r, c, CellType { is_revealed: true, ..self.at(r, c) })
    }

    pub open spec fn mined(self, r: int, c: int) -> GameView {
        self.with_type(r, c, CellType { is_mine: true, ..self.at(r, c) })
    }

    /// The game after digging at `(r, c)`: over on a mine, with no cell
    /// revealed; otherwise with that one cell revealed.
    pub open spec fn dug(self, r: int, c: int) -> GameView {
        if self.at(r, c).is_mine {
            GameView { is_game_over: true, ..self }
        } else {
            self.revealed(r, c)
        }
    }

    /// `next` is `self` with mines added until `num_mines` cells hold one:
    /// each cell is kept or becomes a mine, and nothing else changes.
    pub open spec fn placed(self, next: GameView) -> bool {
        &&& next.rows == self.rows
        &&& next.cols == self.cols
        &&& next.num_mines == self.num_mines
        &&& next.is_game_over == self.is_game_over
        &&& well_placed(next.cells, next.rows, next.cols)
        &&& next.mine_count() == if self.mine_count() < self.num_mines {
            self.num_mines
        } else {
            self.mine_count()
        }
        &&& forall|r: int, c: int|
            self.in_bounds(r, c) ==> #[trigger] next.cells[r][c] == self.cells[r][c]
                || next.cells[r][c] == self.mined(r, c).cells[r][c]
    }
}

/// `free` lists distinct positions of `v`, none of which holds a mine, and
/// as many as there are cells without one.
pub open spec fn free_list(v: GameView, free: Seq<(u8, u8)>) -> bool {
    &&& free.no_duplicates()
    &&& forall|i: int|
        0 <= i < free.len() ==> v.in_bounds((#[trigger] free[i]).0 as int, free[i].1 as int)
            && !v.at(free[i].0 as int, free[i].1 as int).is_mine
    &&& free.len() + v.mine_count() == v.rows * v.cols
}

/// A game of minesweeper on one grid. Coordinates are `(row, col)`
/// throughout. Flags are advisory: a flagged cell can still be revealed or
/// dug, and a revealed one flagged. Neither a flag nor a reveal is ever
/// undone, and a finished game stays finished.
pub struct MineSweeper {
    grid: Grid,
    num_mines: u8,
    is_game_over: bool,
}

impl View for MineSweeper {
    type V = GameView;

    closed spec fn view(&self) -> GameView {
        GameView {
            cells: self.grid.cells(),
            rows: self.grid.num_rows(),
            cols: self.grid.num_cols(),
            num_mines: self.num_mines as nat,
            is_game_over: self.is_game_over,
        }
    }
}

impl MineSweeper {
    /// A well-formed grid with room for every mine and one free cell more.
    pub closed spec fn wf(&self) -> bool {
        &&& self.grid.wf()
        &&& (self.num_mines as nat) < self.grid.num_rows() * self.grid.num_cols()
    }

    /// A game on a `rows` by `cols` grid that will hold `num_mines` mines.
    /// Both sizes must be nonzero and at least one cell must stay free.
    pub fn new(rows: u8, cols: u8, num_mines: u8) -> (r: Result<MineSweeper, GameError>)
        ensures
            rows == 0 || cols == 0 <==> r == Err::<MineSweeper, GameError>(
                GameError::ZeroDimension,
            ),
            rows > 0 && cols > 0 && num_mines >= (rows as int) * (cols as int) <==> r == Err::<
                MineSweeper,
                GameError,
            >(GameError::TooManyMines),
            rows > 0 && cols > 0 && num_mines < (rows as int) * (cols as int) ==> r is Ok,
            r is Ok ==> r->Ok_0.wf() && r->Ok_0@ == GameView::fresh(
                rows as nat,
                cols as nat,
                num_mines as nat,
            ),
    {
        if rows == 0 || cols == 0 {
            return Err(GameError::ZeroDimension);
        }
        assert((rows as int) * (cols as int) <= 255 * 255) by (nonlinear_arith)
            requires
                rows <= 255,
                cols <= 255,
        ;
        if num_mines as u32 >= rows as u32 * cols as u32 {
            return Err(GameError::TooManyMines);
        }
        match Grid::new(rows, cols) {
            Ok(grid) => {
                let game = MineSweeper { grid, num_mines, is_game_over: false };
                assert(game@.cells =~~= GameView::fresh(
                    rows as nat,
                    cols as nat,
                    num_mines as nat,
                ).cells);
                Ok(game)
            },
            Err(e) => Err(e),
        }
    }

    pub fn grid(&self) -> (r: &Grid)
        ensures
            r.cells() == self@.cells,
            r.num_rows() == self@.rows,
            r.num_cols() == self@.cols,
            self.wf() ==> r.wf(),
    {
        &self.grid
    }

    pub fn num_mines(&self) -> (r: u8)
        ensures
            r == self@.num_mines,
    {
        self.num_mines
    }

    pub fn is_game_over(&self) -> (r: bool)
        ensures
            r == self@.is_game_over,
    {
        self.is_game_over
    }

    /// Flags the cell at `(row, col)`; a flagged cell stays flagged.
    pub fn set_flag(&mut self, row: u8, col: u8) -> (r: Result<(), GameError>)
        requires
            old(self).wf(),
        ensures
            final(self).wf(),
            old(self)@.in_bounds(row as int, col as int) ==> r is Ok && final(self)@ == old(
                self,
            )@.flagged(row as int, col as int),
            !old(self)@.in_bounds(row as int, col as int) ==> r == Err::<(), GameError>(
                GameError::OutOfBounds,
            ) && final(self)@ == old(self)@,
    {
        let ghost before = self@;
        match self.grid.get_cell_mut(row, col) {
            Ok(cell) => {
                if !cell.cell_type.is_flagged {
                    cell.cell_type.set_is_flagged(true);
                }
                assert(self@.cells =~~= before.flagged(row as int, col as int).cells);
                Ok(())
            },
            Err(e) => Err(e),
        }
    }

    /// Reveals the cell at `(row, col)`; a revealed cell stays revealed.
    pub fn set_reveal(&mut self, row: u8, col: u8) -> (r: Result<(), GameError>)
        requires
            old(self).wf(),
        ensures
            final(self).wf(),
            old(self)@.in_bounds(row as int, col as int) ==> r is Ok && final(self)@ == old(
                self,
            )@.revealed(row as int, col as int),
            !old(self)@.in_bounds(row as int, col as int) ==> r == Err::<(), GameError>(
                GameError::OutOfBounds,
            ) && final(self)@ == old(self)@,
    {
        let ghost before = self@;
        match self.grid.get_cell_mut(row, col) {
            Ok(cell) => {
                if !cell.cell_type.is_revealed {
                    cell.cell_type.set_is_revealed(true);
                }
                assert(self@.cells =~~= before.revealed(row as int, col as int).cells);
                Ok(())
            },
            Err(e) => Err(e),
        }
    }

    /// Puts a mine on the cell at `(row, col)`; a mine stays a mine.
    pub fn set_mine(&mut self, row: u8, col: u8) -> (r: Result<(), GameError>)
        requires
            old(self).wf(),
        ensures
            final(self).wf(),
            old(self)@.in_bounds(row as int, col as int) ==> r is Ok && final(self)@ == old(
                self,
            )@.mined(row as int, col as int),
            !old(self)@.in_bounds(row as int, col as int) ==> r == Err::<(), GameError>(
                GameError::OutOfBounds,
            ) && final(self)@ == old(self)@,
    {
        let ghost before = self@;
        match self.grid.get_cell_mut(row, col) {
            Ok(cell) => {
                if !cell.cell_type.is_mine {
                    cell.cell_type.set_is_mine(true);
                }
                assert(self@.cells =~~= before.mined(row as int, col as int).cells);
                Ok(())
            },
            Err(e) => Err(e),
        }
    }

    /// The player digs at `(row, col)`. On a mine the game is over and
    /// `Ok(false)` comes back, with no cell revealed. Otherwise that same cell,
    /// and no other, is revealed and `Ok(true)` comes back.
    pub fn dig(&mut self, row: u8, col: u8) -> (r: Result<bool, GameError>)
        requires
            old(self).wf(),
        ensures
            final(self).wf(),
            old(self)@.in_bounds(row as int, col as int) ==> r == Ok::<bool, GameError>(
                !old(self)@.at(row as int, col as int).is_mine,
            ) && final(self)@ == old(self)@.dug(row as int, col as int),
            !old(self)@.in_bounds(row as int, col as int) ==> r == Err::<bool, GameError>(
                GameError::OutOfBounds,
            ) && final(self)@ == old(self)@,
    {
        let is_mine = match self.grid.get_cell(row, col) {
            Ok(cell) => cell.cell_type.is_mine,
            Err(e) => {
                return Err(e);
            },
        };
        if is_mine {
            self.is_game_over = true;
            return Ok(false);
        }
        match self.set_reveal(row, col) {
            Ok(()) => Ok(true),
            Err(e) => Err(e),
        }
    }

    /// The cells around `(row, col)` that lie inside the grid, in the fixed
    /// compass order: up to eight, fewer at an edge or a corner.
    pub fn get_neighbours(&self, row: u8, col: u8) -> (r: Vec<&Cell>)
        requires
            self.wf(),
        ensures
            r@.len() == neighbour_positions(self@.rows, self@.cols, row as int, col as int).len(),
            forall|i: int|
                0 <= i < r@.len() ==> {
                    let p = neighbour_positions(self@.rows, self@.cols, row as int, col as int)[i];
                    *(#[trigger] r@[i]) == self@.cells[p.0][p.1]
                },
    {
        let ghost rows = self@.rows;
        let ghost cols = self@.cols;
        let mut neighbours: Vec<&Cell> = Vec::new();
        let mut k: usize = 0;
        while k < 8
            invariant
                self.wf(),
                k <= 8,
                rows == self@.rows,
                cols == self@.cols,
                neighbours@.len() == neighbours_upto(rows, cols, row as int, col as int, k as nat).len(),
                forall|i: int|
                    0 <= i < neighbours@.len() ==> {
                        let p = neighbours_upto(rows, cols, row as int, col as int, k as nat)[i];
                        *(#[trigger] neighbours@[i]) == self@.cells[p.0][p.1]
                    },
            decreases 8 - k,
        {
            let (dr, dc) = offset_of(k);
            let new_row: i16 = row as i16 + dr;
            let new_col: i16 = col as i16 + dc;
            if 0 <= new_row && new_row < self.grid.rows() as i16 && 0 <= new_col && new_col
                < self.grid.cols() as i16 {
                match self.grid.get_cell(new_row as u8, new_col as u8) {
                    Ok(cell) => {
                        neighbours.push(cell);
                    },
                    Err(_) => {},
                }
            }
            k = k + 1;
        }
        neighbours
    }

    /// How many of the neighbours of `(row, col)` hold a mine.
    pub fn count_mine_neighbours(&self, row: u8, col: u8) -> (r: u8)
        requires
            self.wf(),
        ensures
            r == mines_at(
                self@.cells,
                neighbour_positions(self@.rows, self@.cols, row as int, col as int),
            ),
            r <= 8,
    {
        let neighbours = self.get_neighbours(row, col);
        let ghost ps = neighbour_positions(self@.rows, self@.cols, row as int, col as int);
        proof {
            lemma_neighbours_upto_len(self@.rows, self@.cols, row as int, col as int, 8);
        }
        let mut count: u8 = 0;
        let mut i: usize = 0;
        while i < neighbours.len()
            invariant
                neighbours@.len() == ps.len(),
                ps.len() <= 8,
                i <= neighbours@.len(),
                count <= i,
                count == mines_at(self@.cells, ps.take(i as int)),
                forall|j: int|
                    0 <= j < neighbours@.len() ==> *(#[trigger] neighbours@[j])
                        == self@.cells[ps[j].0][ps[j].1],
            decreases neighbours@.len() - i,
        {
            assert(ps.take(i + 1).drop_last() =~= ps.take(i as int));
            if neighbours[i].cell_type.is_mine {
                count = count + 1;
            }
            i = i + 1;
        }
        assert(ps.take(i as int) =~= ps);
        count
    }

    /// The positions of all cells without a mine, row by row.
    fn free_cells(&self) -> (r: Vec<(u8, u8)>)
        requires
            self.wf(),
        ensures
            free_list(self@, r@),
    {
        let ghost g = self@.cells;
        let rows = self.grid.rows();
        let cols = self.grid.cols();
        let mut free: Vec<(u8, u8)> = Vec::new();
        let mut row: u8 = 0;
        while row < rows
            invariant
                self.wf(),
                g == self@.cells,
                rows == self@.rows,
                cols == self@.cols,
                row <= rows,
                free@.no_duplicates(),
                forall|i: int|
                    0 <= i < free@.len() ==> self@.in_bounds(
                        (#[trigger] free@[i]).0 as int,
                        free@[i].1 as int,
                    ) && !self@.at(free@[i].0 as int, free@[i].1 as int).is_mine && free@[i].0
                        < row,
                free@.len() + grid_mines(g.take(row as int)) == (row as int) * (cols as int),
            decreases rows - row,
        {
            let mut col: u8 = 0;
            while col < cols
                invariant
                    self.wf(),
                    g == self@.cells,
                    rows == self@.rows,
                    cols == self@.cols,
                    row < rows,
                    col <= cols,
                    free@.no_duplicates(),
                    forall|i: int|
                        0 <= i < free@.len() ==> self@.in_bounds(
                            (#[trigger] free@[i]).0 as int,
                            free@[i].1 as int,
                        ) && !self@.at(free@[i].0 as int, free@[i].1 as int).is_mine && (
                        free@[i].0 < row || (free@[i].0 == row && free@[i].1 < col)),
                    free@.len() + grid_mines(g.take(row as int)) + row_mines(
                        g[row as int].take(col as int),
                    ) == (row as int) * (cols as int) + col,
                decreases cols - col,
            {
                proof {
                    lemma_row_mines_take(g[row as int], col as int);
                }
                let is_mine = match self.grid.get_cell(row, col) {
                    Ok(cell) => cell.cell_type.is_mine,
                    Err(_) => true,
                };
                if !is_mine {
                    free.push((row, col));
                }
                col = col + 1;
            }
            proof {
                lemma_grid_mines_take(g, row as int);
                assert(g[row as int].take(cols as int) =~= g[row as int]);
                assert((row as int) * (cols as int) + cols == (row + 1) * (cols as int))
                    by (nonlinear_arith);
            }
            row = row + 1;
        }
        assert(g.take(rows as int) =~= g);
        free
    }

    /// Puts a mine on the `k`-th free position and takes that position off the
    /// list, moving the last one into its place.
    fn place_free(&mut self, free: &mut Vec<(u8, u8)>, k: usize)
        requires
            old(self).wf(),
            free_list(old(self)@, old(free)@),
            k < old(free)@.len(),
        ensures
            final(self).wf(),
            final(self)@ == old(self)@.mined(old(free)@[k as int].0 as int, old(free)@[k as int].1 as int),
            final(self)@.mine_count() == old(self)@.mine_count() + 1,
            final(free)@ == old(free)@.update(k as int, old(free)@.last()).drop_last(),
            free_list(final(self)@, final(free)@),
    {
        let ghost before = self@;
        let ghost list = free@;
        let (row, col) = free.swap_remove(k);
        let _ = self.set_mine(row, col);
        proof {
            let (r, c) = (row as int, col as int);
            let x = before.cells[r][c].with_type(CellType { is_mine: true, ..before.at(r, c) });
            lemma_grid_mines_put(before.cells, r, c, x);
            assert(mine_bit(x) == 1);
            assert(mine_bit(before.cells[r][c]) == 0);
            let rest = free@;
            assert forall|i: int| 0 <= i < rest.len() implies #[trigger] rest[i] == list[
                if i == k { list.len() - 1 } else { i }
            ] && (if i == k { list.len() - 1 } else { i }) != k as int by {}
            assert forall|i: int, j: int|
                0 <= i < rest.len() && 0 <= j < rest.len() && i != j implies #[trigger] rest[i]
                != #[trigger] rest[j] by {
                let a = if i == k { list.len() - 1 } else { i };
                let b = if j == k { list.len() - 1 } else { j };
                assert(rest[i] == list[a]);
                assert(rest[j] == list[b]);
            }
            assert forall|i: int| 0 <= i < rest.len() implies self@.in_bounds(
                (#[trigger] rest[i]).0 as int,
                rest[i].1 as int,
            ) && !self@.at(rest[i].0 as int, rest[i].1 as int).is_mine by {
                let a = if i == k { list.len() - 1 } else { i };
                assert(rest[i] == list[a]);
                assert(list[a] != list[k as int]);
            }
        }
    }

    /// Places mines until `num_mines` cells hold one. Each new mine goes to a
    /// cell drawn uniformly from those that hold none yet: the same outcome as
    /// drawing any cell and drawing again while it holds a mine, in a bounded
    /// number of draws. Mines already there stay.
    pub fn shuffle(&mut self)
        requires
            old(self).wf(),
        ensures
            final(self).wf(),
            old(self)@.placed(final(self)@),
    {
        let ghost start = self@;
        let mut free = self.free_cells();
        proof {
            assert(start.rows * start.cols <= 255 * 255) by (nonlinear_arith)
                requires
                    start.rows <= 255,
                    start.cols <= 255,
            ;
        }
        let total: usize = self.grid.rows() as usize * self.grid.cols() as usize;
        while total - free.len() < self.num_mines as usize
            invariant
                self.wf(),
                free_list(self@, free@),
                total == self@.rows * self@.cols,
                self@.rows == start.rows,
                self@.cols == start.cols,
                self@.num_mines == start.num_mines,
                self@.is_game_over == start.is_game_over,
                well_placed(start.cells, start.rows, start.cols),
                start.mine_count() <= self@.mine_count(),
                self@.mine_count() <= start.mine_count() || self@.mine_count() <= start.num_mines,
                forall|r: int, c: int|
                    start.in_bounds(r, c) ==> #[trigger] self@.cells[r][c] == start.cells[r][c]
                        || self@.cells[r][c] == start.mined(r, c).cells[r][c],
            decreases free@.len(),
        {
            let k = random_below(free.len());
            let ghost p = free@[k as int];
            let ghost prev = self@;
            self.place_free(&mut free, k);
            proof {
                assert(prev.in_bounds(p.0 as int, p.1 as int));
                assert(!prev.at(p.0 as int, p.1 as int).is_mine);
                assert forall|r: int, c: int| start.in_bounds(r, c) implies #[trigger] self@.cells[r][c]
                    == start.cells[r][c] || self@.cells[r][c] == start.mined(r, c).cells[r][c] by {
                    assert(prev.cells[r][c] == start.cells[r][c] || prev.cells[r][c] == start.mined(
                        r,
                        c,
                    ).cells[r][c]);
                    if r == p.0 && c == p.1 {
                        assert(prev.cells[r][c] == start.cells[r][c]);
                    } else {
                        assert(self@.cells[r][c] == prev.cells[r][c]);
                    }
                }
            }
        }
    }
}

} // verus!
