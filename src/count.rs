use vstd::prelude::*;

use crate::cell::Cell;
use crate::grid::put;

verus! {

/// 1 for a mine, 0 otherwise.
pub open spec fn mine_bit(c: Cell) -> nat {
    if c.cell_type.is_mine {
        1
    } else {
        0
    }
}

/// The number of mines in one row.
pub open spec fn row_mines(s: Seq<Cell>) -> nat
    decreases s.len(),
{
    if s.len() == 0 {
        0
    } else {
        row_mines(s.drop_last()) + mine_bit(s.last())
    }
}

/// The number of mines in all rows.
pub open spec fn grid_mines(g: Seq<Seq<Cell>>) -> nat
    decreases g.len(),
{
    if g.len() == 0 {
        0
    } else {
        grid_mines(g.drop_last()) + row_mines(g.last())
    }
}

pub proof fn lemma_row_mines_take(s: Seq<Cell>, c: int)
    requires
        0 <= c < s.len(),
    ensures
        row_mines(s.take(c + 1)) == row_mines(s.take(c)) + mine_bit(s[c]),
{
    assert(s.take(c + 1).drop_last() =~= s.take(c));
}

pub proof fn lemma_grid_mines_take(g: Seq<Seq<Cell>>, r: int)
    requires
        0 <= r < g.len(),
    ensures
        grid_mines(g.take(r + 1)) == grid_mines(g.take(r)) + row_mines(g[r]),
{
    assert(g.take(r + 1).drop_last() =~= g.take(r));
}

pub proof fn lemma_row_mines_update(s: Seq<Cell>, i: int, x: Cell)
    requires
        0 <= i < s.len(),
    ensures
        row_mines(s.update(i, x)) + mine_bit(s[i]) == row_mines(s) + mine_bit(x),
    decreases s.len(),
{
    let t = s.update(i, x);
    if i == s.len() - 1 {
        assert(t.drop_last() =~= s.drop_last());
    } else {
        lemma_row_mines_update(s.drop_last(), i, x);
        assert(t.drop_last() =~= s.drop_last().update(i, x));
    }
}

pub proof fn lemma_grid_mines_put(g: Seq<Seq<Cell>>, r: int, c: int, x: Cell)
    requires
        0 <= r < g.len(),
        0 <= c < g[r].len(),
    ensures
        grid_mines(put(g, r, c, x)) + mine_bit(g[r][c]) == grid_mines(g) + mine_bit(x),
    decreases g.len(),
{
    let h = put(g, r, c, x);
    lemma_row_mines_update(g[r], c, x);
    if r == g.len() - 1 {
        assert(h.drop_last() =~= g.drop_last());
    } else {
        lemma_grid_mines_put(g.drop_last(), r, c, x);
        assert(h.drop_last() =~= put(g.drop_last(), r, c, x));
    }
}

pub proof fn lemma_row_mines_none(s: Seq<Cell>)
    requires
        forall|i: int| 0 <= i < s.len() ==> !(#[trigger] s[i]).cell_type.is_mine,
    ensures
        row_mines(s) == 0,
    decreases s.len(),
{
    if s.len() > 0 {
        lemma_row_mines_none(s.drop_last());
    }
}

pub proof fn lemma_grid_mines_none(g: Seq<Seq<Cell>>)
    requires
        forall|r: int, c: int|
            0 <= r < g.len() && 0 <= c < g[r].len() ==> !(#[trigger] g[r][c]).cell_type.is_mine,
    ensures
        grid_mines(g) == 0,
    decreases g.len(),
{
    if g.len() > 0 {
        let l = g.last();
        assert forall|i: int| 0 <= i < l.len() implies !(#[trigger] l[i]).cell_type.is_mine by {
            assert(l[i] == g[g.len() - 1][i]);
        }
        lemma_row_mines_none(l);
        lemma_grid_mines_none(g.drop_last());
    }
}

} // verus!
