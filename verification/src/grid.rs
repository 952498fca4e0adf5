use vstd::prelude::*;
use crate::cells::Cell;

verus! {

/// The raw cell layout of one sheet: `(row, column, cell)` triples plus the
/// authoritative column count, which the header row's width supplies.
///
/// The triples may be sparse and in any order; a position with no triple
/// stands for an empty cell, and where a position is given twice the first
/// triple wins. Cells whose column index is at or past `column_count` are out
/// of range and ignored.
#[derive(Debug, Clone)]
pub struct Grid {
    pub column_count: usize,
    pub cells: Vec<(usize, usize, Cell)>,
}

/// Machine limit on a grid: every in-range row index leaves room for a row
/// count (`row + 1` must fit in a `usize`). An out-of-range triple is
/// ignored and carries no demand.
pub open spec fn grid_cells_wf(cells: Seq<(usize, usize, Cell)>, count: int) -> bool {
    forall|k: int|
        0 <= k < cells.len() && (#[trigger] cells[k]).1 < count ==> cells[k].0 < usize::MAX
}

pub open spec fn grid_wf(g: Grid) -> bool {
    grid_cells_wf(g.cells@, g.column_count as int)
}

/// Whether some triple sits at row `r`, column `c`.
pub open spec fn has_cell(cells: Seq<(usize, usize, Cell)>, r: int, c: int) -> bool {
    exists|k: int| 0 <= k < cells.len() && (#[trigger] cells[k]).0 == r && cells[k].1 == c
}

/// The cell at row `r`, column `c`: the first triple there, or an empty cell
/// where none is.
pub open spec fn cell_at(cells: Seq<(usize, usize, Cell)>, r: int, c: int) -> Cell
    decreases cells.len(),
{
    if cells.len() == 0 {
        Cell::Empty
    } else if cells[0].0 == r && cells[0].1 == c {
        cells[0].2
    } else {
        cell_at(cells.drop_first(), r, c)
    }
}

/// The number of rows the in-range triples span: one past the largest row
/// index among triples whose column index lies below `count`, or zero where
/// no triple is in range. An out-of-range triple contributes nothing.
pub open spec fn rows_spec(cells: Seq<(usize, usize, Cell)>, count: int) -> nat
    decreases cells.len(),
{
    if cells.len() == 0 {
        0
    } else {
        let rest = rows_spec(cells.drop_last(), count);
        if cells.last().1 < count {
            let own = (cells.last().0 + 1) as nat;
            if own > rest {
                own
            } else {
                rest
            }
        } else {
            rest
        }
    }
}

/// The number of data rows: all in-range rows but the header row.
pub open spec fn data_rows(cells: Seq<(usize, usize, Cell)>, count: int) -> nat {
    if rows_spec(cells, count) == 0 {
        0
    } else {
        (rows_spec(cells, count) - 1) as nat
    }
}

proof fn lemma_cell_at_first_match(cells: Seq<(usize, usize, Cell)>, r: int, c: int, k: int)
    requires
        0 <= k < cells.len(),
        cells[k].0 == r,
        cells[k].1 == c,
        forall|j: int| 0 <= j < k ==> !((#[trigger] cells[j]).0 == r && cells[j].1 == c),
    ensures
        cell_at(cells, r, c) == cells[k].2,
    decreases k,
{
    if k == 0 {
    } else {
        assert(cells.drop_first()[k - 1] == cells[k]);
        assert(forall|j: int|
            0 <= j < k - 1 ==> (#[trigger] cells.drop_first()[j]) == cells[j + 1]);
        lemma_cell_at_first_match(cells.drop_first(), r, c, k - 1);
    }
}

proof fn lemma_cell_at_absent(cells: Seq<(usize, usize, Cell)>, r: int, c: int)
    requires
        !has_cell(cells, r, c),
    ensures
        cell_at(cells, r, c) == Cell::Empty,
    decreases cells.len(),
{
    if cells.len() == 0 {
    } else {
        assert(forall|j: int|
            0 <= j < cells.drop_first().len() ==> (#[trigger] cells.drop_first()[j]) == cells[j
                + 1]);
        lemma_cell_at_absent(cells.drop_first(), r, c);
    }
}

/// Finds the cell at row `r`, column `c`: the first triple there, or nothing
/// where the position has no triple (an absent cell).
pub fn grid_lookup<'a>(cells: &'a Vec<(usize, usize, Cell)>, r: usize, c: usize) -> (res: Option<
    &'a Cell,
>)
    ensures
        match res {
            Option::Some(cell) => has_cell(cells@, r as int, c as int) && *cell == cell_at(
                cells@,
                r as int,
                c as int,
            ),
            Option::None => !has_cell(cells@, r as int, c as int) && cell_at(
                cells@,
                r as int,
                c as int,
            ) == Cell::Empty,
        },
{
    let n = cells.len();
    let mut k: usize = 0;
    while k < n
        invariant
            n == cells@.len(),
            0 <= k <= n,
            forall|j: int| 0 <= j < k ==> !((#[trigger] cells@[j]).0 == r && cells@[j].1 == c),
        decreases n - k,
    {
        if cells[k].0 == r && cells[k].1 == c {
            proof {
                lemma_cell_at_first_match(cells@, r as int, c as int, k as int);
            }
            return Some(&cells[k].2);
        }
        k += 1;
    }
    proof {
        lemma_cell_at_absent(cells@, r as int, c as int);
    }
    None
}

/// Computes the row count of the grid: one past the largest row index among
/// the triples whose column index lies below `count`.
pub fn grid_row_count(cells: &Vec<(usize, usize, Cell)>, count: usize) -> (r: usize)
    requires
        grid_cells_wf(cells@, count as int),
    ensures
        r == rows_spec(cells@, count as int),
{
    let n = cells.len();
    let mut acc: usize = 0;
    let mut k: usize = 0;
    while k < n
        invariant
            n == cells@.len(),
            0 <= k <= n,
            grid_cells_wf(cells@, count as int),
            acc == rows_spec(cells@.take(k as int), count as int),
        decreases n - k,
    {
        proof {
            assert(cells@.take(k + 1).drop_last() =~= cells@.take(k as int));
            assert(cells@.take(k + 1).last() == cells@[k as int]);
        }
        if cells[k].1 < count {
            let own = cells[k].0 + 1;
            if own > acc {
                acc = own;
            }
        }
        k += 1;
    }
    proof {
        assert(cells@.take(n as int) =~= cells@);
    }
    acc
}

} // verus!
