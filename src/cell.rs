use vstd::prelude::*;

verus! {

/// The four independent flags of a cell.
#[derive(Clone, Copy, PartialEq, Eq, Structural)]
pub struct CellType {
    pub is_empty: bool,
    pub is_mine: bool,
    pub is_revealed: bool,
    pub is_flagged: bool,
}

impl CellType {
    /// The flags of a fresh cell: empty, and nothing else.
    pub open spec fn fresh() -> CellType {
        CellType { is_empty: true, is_mine: false, is_revealed: false, is_flagged: false }
    }

    pub fn set_is_emtpy(&mut self, is_empty: bool)
        ensures
            *final(self) == (CellType { is_empty, ..*old(self) }),
    {
        self.is_empty = is_empty;
    }

    pub fn set_is_mine(&mut self, is_mine: bool)
        ensures
            *final(self) == (CellType { is_mine, ..*old(self) }),
    {
        self.is_mine = is_mine;
    }

    pub fn set_is_revealed(&mut self, is_revealed: bool)
        ensures
            *final(self) == (CellType { is_revealed, ..*old(self) }),
    {
        self.is_revealed = is_revealed;
    }

    pub fn set_is_flagged(&mut self, is_flagged: bool)
        ensures
            *final(self) == (CellType { is_flagged, ..*old(self) }),
    {
        self.is_flagged = is_flagged;
    }

    pub fn is_empty(&self) -> (r: bool)
        ensures
            r == self.is_empty,
    {
        self.is_empty
    }

    pub fn is_mine(&self) -> (r: bool)
        ensures
            r == self.is_mine,
    {
        self.is_mine
    }

    pub fn is_revealed(&self) -> (r: bool)
        ensures
            r == self.is_revealed,
    {
        self.is_revealed
    }

    pub fn is_flagged(&self) -> (r: bool)
        ensures
            r == self.is_flagged,
    {
        self.is_flagged
    }
}

/// One position of the grid, with its flags.
#[derive(Clone, Copy, PartialEq, Eq, Structural)]
pub struct Cell {
    pub row: u8,
    pub col: u8,
    pub cell_type: CellType,
}

impl Cell {
    /// A fresh cell standing at `(row, col)`.
    pub open spec fn fresh(row: int, col: int) -> Cell {
        Cell { row: row as u8, col: col as u8, cell_type: CellType::fresh() }
    }

    /// The same cell with its flags replaced.
    pub open spec fn with_type(self, t: CellType) -> Cell {
        Cell { cell_type: t, ..self }
    }

    pub fn new(row: u8, col: u8) -> (r: Cell)
        ensures
            r == Cell::fresh(row as int, col as int),
    {
        Cell {
            row,
            col,
            cell_type: CellType {
                is_empty: true,
                is_mine: false,
                is_revealed: false,
                is_flagged: false,
            },
        }
    }

    pub fn set_row(&mut self, row: u8)
        ensures
            *final(self) == (Cell { row, ..*old(self) }),
    {
        self.row = row;
    }

    pub fn set_col(&mut self, col: u8)
        ensures
            *final(self) == (Cell { col, ..*old(self) }),
    {
        self.col = col;
    }

    pub fn set_cell_type(&mut self, cell_type: CellType)
        ensures
            *final(self) == old(self).with_type(cell_type),
    {
        self.cell_type = cell_type;
    }

    pub fn row(&self) -> (r: u8)
        ensures
            r == self.row,
    {
        self.row
    }

    pub fn col(&self) -> (r: u8)
        ensures
            r == self.col,
    {
        self.col
    }

    pub fn cell_type(&self) -> (r: &CellType)
        ensures
            *r == self.cell_type,
    {
        &self.cell_type
    }
}

} // verus!
