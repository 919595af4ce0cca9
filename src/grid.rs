use vstd::prelude::*;

use crate::cell::Cell;
use crate::error::GameError;

verus! {

/// The rows of `cells` with the cell at `(r, c)` replaced by `x`.
pub open spec fn put(cells: Seq<Seq<Cell>>, r: int, c: int, x: Cell) -> Seq<Seq<Cell>> {
    cells.update(r, cells[r].update(c, x))
}

/// `cells` has `rows` rows of `cols` cells each, and every cell carries its own
/// coordinates.
pub open spec fn well_placed(cells: Seq<Seq<Cell>>, rows: nat, cols: nat) -> bool {
    &&& cells.len() == rows
    &&& forall|r: int| 0 <= r < rows ==> #[trigger] cells[r].len() == cols
    &&& forall|r: int, c: int|
        0 <= r < rows && 0 <= c < cols ==> (#[trigger] cells[r][c]).row == r && cells[r][c].col
            == c
}

/// A fixed-size rectangle of cells, at most 255 by 255.
pub struct Grid {
    grid: Vec<Vec<Cell>>,
    rows: u8,
    cols: u8,
}

impl Grid {
    /// The cells, row by row.
    pub closed spec fn cells(&self) -> Seq<Seq<Cell>> {
        self.grid@.map_values(|row: Vec<Cell>| row@)
    }

    pub closed spec fn num_rows(&self) -> nat {
        self.rows as nat
    }

    pub closed spec fn num_cols(&self) -> nat {
        self.cols as nat
    }

    /// At least one row and one column, and every cell where it belongs.
    pub open spec fn wf(&self) -> bool {
        &&& self.num_rows() >= 1
        &&& self.num_cols() >= 1
        &&& self.num_rows() <= 255
        &&& self.num_cols() <= 255
        &&& well_placed(self.cells(), self.num_rows(), self.num_cols())
    }

    pub open spec fn in_bounds(&self, r: int, c: int) -> bool {
        0 <= r < self.num_rows() && 0 <= c < self.num_cols()
    }

    /// A grid of `rows` by `cols` fresh cells; both must be nonzero.
    pub fn new(rows: u8, cols: u8) -> (r: Result<Grid, GameError>)
        ensures
            rows == 0 || cols == 0 ==> r == Err::<Grid, GameError>(GameError::ZeroDimension),
            rows > 0 && cols > 0 ==> r is Ok,
            r is Ok ==> {
                let g = r->Ok_0;
                &&& g.wf()
                &&& g.num_rows() == rows
                &&& g.num_cols() == cols
                &&& forall|i: int, j: int|
                    g.in_bounds(i, j) ==> #[trigger] g.cells()[i][j] == Cell::fresh(i, j)
            },
    {
        if rows == 0 || cols == 0 {
            return Err(GameError::ZeroDimension);
        }
        let mut grid: Vec<Vec<Cell>> = Vec::new();
        let mut row: u8 = 0;
        while row < rows
            invariant
                row <= rows,
                grid@.len() == row,
                forall|i: int| 0 <= i < row ==> #[trigger] grid@[i]@.len() == cols,
                forall|i: int, j: int|
                    0 <= i < row && 0 <= j < cols ==> #[trigger] grid@[i]@[j] == Cell::fresh(i, j),
            decreases rows - row,
        {
            let mut row_vec: Vec<Cell> = Vec::new();
            let mut col: u8 = 0;
            while col < cols
                invariant
                    col <= cols,
                    row_vec@.len() == col,
                    forall|j: int| 0 <= j < col ==> #[trigger] row_vec@[j] == Cell::fresh(row as int, j),
                decreases cols - col,
            {
                row_vec.push(Cell::new(row, col));
                col = col + 1;
            }
            grid.push(row_vec);
            row = row + 1;
        }
        let g = Grid { grid, rows, cols };
        assert(forall|i: int| 0 <= i < rows ==> #[trigger] g.cells()[i] == grid@[i]@);
        Ok(g)
    }

    /// The cell at `(row, col)`, or `OutOfBounds`.
    pub fn get_cell(&self, row: u8, col: u8) -> (r: Result<&Cell, GameError>)
        requires
            self.wf(),
        ensures
            self.in_bounds(row as int, col as int) ==> r == Ok::<&Cell, GameError>(
                &self.cells()[row as int][col as int],
            ),
            !self.in_bounds(row as int, col as int) ==> r == Err::<&Cell, GameError>(
                GameError::OutOfBounds,
            ),
    {
        if row >= self.rows || col >= self.cols {
            return Err(GameError::OutOfBounds);
        }
        assert(self.cells()[row as int] == self.grid@[row as int]@);
        Ok(&self.grid[row as usize][col as usize])
    }

    /// The cell at `(row, col)` for writing, or `OutOfBounds`. The grid stays
    /// well formed as long as the writer keeps the cell's coordinates.
    pub fn get_cell_mut(&mut self, row: u8, col: u8) -> (r: Result<&mut Cell, GameError>)
        requires
            old(self).wf(),
        ensures
            final(self).num_rows() == old(self).num_rows(),
            final(self).num_cols() == old(self).num_cols(),
            old(self).in_bounds(row as int, col as int) ==> r is Ok && *(r->Ok_0) == old(
                self,
            ).cells()[row as int][col as int] && final(self).cells() == put(
                old(self).cells(),
                row as int,
                col as int,
                *final(r->Ok_0),
            ),
            !old(self).in_bounds(row as int, col as int) ==> r is Err && r->Err_0
                == GameError::OutOfBounds && final(self).cells() == old(self).cells(),
    {
        if row >= self.rows || col >= self.cols {
            return Err(GameError::OutOfBounds);
        }
        let ghost before = self.cells();
        assert(self.grid@[row as int]@ == before[row as int]);
        let line = &mut self.grid[row as usize];
        let cell = &mut line[col as usize];
        Ok(cell)
    }

    /// Stores `cell` at `(row, col)`. The cell must carry those coordinates.
    pub fn set_cell(&mut self, row: u8, col: u8, cell: Cell) -> (r: Result<(), GameError>)
        requires
            old(self).wf(),
        ensures
            final(self).wf(),
            final(self).num_rows() == old(self).num_rows(),
            final(self).num_cols() == old(self).num_cols(),
            !old(self).in_bounds(row as int, col as int) ==> r == Err::<(), GameError>(
                GameError::OutOfBounds,
            ) && final(self).cells() == old(self).cells(),
            old(self).in_bounds(row as int, col as int) && (cell.row != row || cell.col != col)
                ==> r == Err::<(), GameError>(GameError::MisplacedCell) && final(self).cells()
                == old(self).cells(),
            old(self).in_bounds(row as int, col as int) && cell.row == row && cell.col == col
                ==> r is Ok && final(self).cells() == put(
                old(self).cells(),
                row as int,
                col as int,
                cell,
            ),
    {
        if row >= self.rows || col >= self.cols {
            return Err(GameError::OutOfBounds);
        }
        if cell.row != row || cell.col != col {
            return Err(GameError::MisplacedCell);
        }
        let ghost before = self.cells();
        assert(self.grid@[row as int]@ == before[row as int]);
        self.grid[row as usize][col as usize] = cell;
        assert(self.cells() =~~= put(before, row as int, col as int, cell));
        Ok(())
    }

    /// All rows of cells.
    pub fn grid(&self) -> (r: &Vec<Vec<Cell>>)
        ensures
            r@.map_values(|row: Vec<Cell>| row@) == self.cells(),
    {
        &self.grid
    }

    pub fn rows(&self) -> (r: u8)
        ensures
            r == self.num_rows(),
    {
        self.rows
    }

    pub fn cols(&self) -> (r: u8)
        ensures
            r == self.num_cols(),
    {
        self.cols
    }
}

} // verus!
