use vstd::prelude::*;

verus! {

/// What can go wrong when building a game or touching one of its cells.
#[derive(Clone, Copy, Debug, PartialEq, Eq, Structural)]
pub enum GameError {
    /// A grid needs at least one row and one column.
    ZeroDimension,
    /// Mine placement needs at least one cell left free of mines.
    TooManyMines,
    /// The coordinates lie outside the grid.
    OutOfBounds,
    /// A cell was stored at a position other than its own coordinates.
    MisplacedCell,
}

} // verus!
