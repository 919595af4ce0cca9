use vstd::prelude::*;

use crate::count::lemma_grid_mines_none;
use crate::game::GameView;
use crate::grid::well_placed;
use crate::neighbours::neighbour_positions;

verus! {

/// On a new game, mine placement leaves exactly `num_mines` cells with a mine;
/// every other cell is as it was, without one.
pub proof fn law_placement_count(rows: nat, cols: nat, num_mines: nat, next: GameView)
    requires
        GameView::fresh(rows, cols, num_mines).placed(next),
    ensures
        next.mine_count() == num_mines,
        forall|r: int, c: int|
            0 <= r < rows && 0 <= c < cols && !(#[trigger] next.cells[r][c]).cell_type.is_mine
                ==> next.cells[r][c] == GameView::fresh(rows, cols, num_mines).cells[r][c],
{
    let start = GameView::fresh(rows, cols, num_mines);
    lemma_grid_mines_none(start.cells);
}

/// On a grid of at least two rows and two columns, a corner cell has three
/// neighbours, another cell on the border five, and an inner cell eight.
pub proof fn law_neighbour_numbers(rows: nat, cols: nat, r: int, c: int)
    requires
        rows >= 2,
        cols >= 2,
        0 <= r < rows,
        0 <= c < cols,
    ensures
        (r == 0 || r == rows - 1) && (c == 0 || c == cols - 1) ==> neighbour_positions(
            rows,
            cols,
            r,
            c,
        ).len() == 3,
        (r == 0 || r == rows - 1) != (c == 0 || c == cols - 1) ==> neighbour_positions(
            rows,
            cols,
            r,
            c,
        ).len() == 5,
        0 < r < rows - 1 && 0 < c < cols - 1 ==> neighbour_positions(rows, cols, r, c).len()
            == 8,
{
    reveal_with_fuel(crate::neighbours::neighbours_upto, 9);
}

/// Revealing a cell a second time changes nothing and succeeds again.
pub proof fn law_reveal_twice(v: GameView, r: int, c: int)
    requires
        well_placed(v.cells, v.rows, v.cols),
        v.in_bounds(r, c),
    ensures
        v.revealed(r, c).in_bounds(r, c),
        v.revealed(r, c).at(r, c).is_revealed,
        v.revealed(r, c).revealed(r, c) == v.revealed(r, c),
{
    let once = v.revealed(r, c);
    assert(once.revealed(r, c).cells =~~= once.cells);
}

/// Flagging a cell a second time changes nothing and succeeds again.
pub proof fn law_flag_twice(v: GameView, r: int, c: int)
    requires
        well_placed(v.cells, v.rows, v.cols),
        v.in_bounds(r, c),
    ensures
        v.flagged(r, c).in_bounds(r, c),
        v.flagged(r, c).at(r, c).is_flagged,
        v.flagged(r, c).flagged(r, c) == v.flagged(r, c),
{
    let once = v.flagged(r, c);
    assert(once.flagged(r, c).cells =~~= once.cells);
}

/// Digging a mine ends the game and reveals nothing.
pub proof fn law_dig_mine(v: GameView, r: int, c: int)
    requires
        v.in_bounds(r, c),
        v.at(r, c).is_mine,
    ensures
        v.dug(r, c).is_game_over,
        v.dug(r, c).cells == v.cells,
        !v.dug(r, c).at(r, c).is_revealed <==> !v.at(r, c).is_revealed,
{
}

/// Digging a cell without a mine leaves the game going and reveals that cell
/// alone.
pub proof fn law_dig_safe(v: GameView, r: int, c: int)
    requires
        well_placed(v.cells, v.rows, v.cols),
        v.in_bounds(r, c),
        !v.at(r, c).is_mine,
    ensures
        v.dug(r, c).is_game_over == v.is_game_over,
        v.dug(r, c).at(r, c).is_revealed,
        v.dug(r, c).cells[r][c] == v.cells[r][c].with_type(
            crate::cell::CellType { is_revealed: true, ..v.at(r, c) },
        ),
        forall|i: int, j: int|
            v.in_bounds(i, j) && (i != r || j != c) ==> #[trigger] v.dug(r, c).cells[i][j]
                == v.cells[i][j],
{
}

} // verus!
