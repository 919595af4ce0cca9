//! A single-player minesweeper core: a rectangular grid of cells, random mine
//! placement, neighbour counts, and the reveal, flag and dig moves.

pub mod cell;
pub mod error;
pub mod grid;
pub mod count;
pub mod game;
pub mod laws;
pub mod neighbours;
mod random;
