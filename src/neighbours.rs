use vstd::prelude::*;

use crate::cell::Cell;

verus! {

/// The `k`-th of the eight compass offsets `(row, col)`, in the order in which
/// neighbours are listed.
pub open spec fn offset(k: int) -> (int, int) {
    if k == 0 {
        (-1, -1)
    } else if k == 1 {
        (0, -1)
    } else if k == 2 {
        (1, -1)
    } else if k == 3 {
        (-1, 0)
    } else if k == 4 {
        (1, 0)
    } else if k == 5 {
        (-1, 1)
    } else if k == 6 {
        (0, 1)
    } else {
        (1, 1)
    }
}

/// The positions that the first `k` offsets lead to from `(r, c)` and that lie
/// inside a `rows` by `cols` grid, in offset order.
pub open spec fn neighbours_upto(rows: nat, cols: nat, r: int, c: int, k: nat) -> Seq<(int, int)>
    decreases k,
{
    if k == 0 {
        Seq::empty()
    } else {
        let prev = neighbours_upto(rows, cols, r, c, (k - 1) as nat);
        let p = (r + offset(k - 1).0, c + offset(k - 1).1);
        if 0 <= p.0 < rows && 0 <= p.1 < cols {
            prev.push(p)
        } else {
            prev
        }
    }
}

/// The neighbours of `(r, c)` inside a `rows` by `cols` grid, in offset order.
pub open spec fn neighbour_positions(rows: nat, cols: nat, r: int, c: int) -> Seq<(int, int)> {
    neighbours_upto(rows, cols, r, c, 8)
}

/// The number of mines among the cells of `cells` at the positions `ps`.
pub open spec fn mines_at(cells: Seq<Seq<Cell>>, ps: Seq<(int, int)>) -> nat
    decreases ps.len(),
{
    if ps.len() == 0 {
        0
    } else {
        let p = ps.last();
        mines_at(cells, ps.drop_last()) + if cells[p.0][p.1].cell_type.is_mine {
            1nat
        } else {
            0nat
        }
    }
}

/// The `k`-th compass offset, as `(row, col)`.
pub fn offset_of(k: usize) -> (r: (i16, i16))
    requires
        k < 8,
    ensures
        (r.0 as int, r.1 as int) == offset(k as int),
{
    if k == 0 {
        (-1, -1)
    } else if k == 1 {
        (0, -1)
    } else if k == 2 {
        (1, -1)
    } else if k == 3 {
        (-1, 0)
    } else if k == 4 {
        (1, 0)
    } else if k == 5 {
        (-1, 1)
    } else if k == 6 {
        (0, 1)
    } else {
        (1, 1)
    }
}

pub proof fn lemma_neighbours_upto_len(rows: nat, cols: nat, r: int, c: int, k: nat)
    ensures
        neighbours_upto(rows, cols, r, c, k).len() <= k,
        forall|i: int|
            0 <= i < neighbours_upto(rows, cols, r, c, k).len() ==> {
                let p = #[trigger] neighbours_upto(rows, cols, r, c, k)[i];
                0 <= p.0 < rows && 0 <= p.1 < cols
            },
    decreases k,
{
    if k > 0 {
        lemma_neighbours_upto_len(rows, cols, r, c, (k - 1) as nat);
    }
}

} // verus!
