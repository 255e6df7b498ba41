//! Counting grains: the total on a grid, the largest pile, and how a toppling
//! pass and a deposit change the total.

use crate::grid::{
    all_below, deposited, is_grid, lemma_toppled_cell_bounds, on_grid, toppled, toppled_cell,
    topples, unstable_at,
};
use vstd::prelude::*;

verus! {

/// The grains in the first `n` cells of a row.
pub open spec fn row_total(row: Seq<usize>, n: int) -> int
    decreases n,
{
    if n <= 0 {
        0
    } else {
        row_total(row, n - 1) + row[n - 1]
    }
}

/// The grains in the first `m` rows of a grid.
pub open spec fn rows_total(g: Seq<Seq<usize>>, m: int) -> int
    decreases m,
{
    if m <= 0 {
        0
    } else {
        rows_total(g, m - 1) + row_total(g[m - 1], g[m - 1].len() as int)
    }
}

/// All the grains on a grid.
pub open spec fn total(g: Seq<Seq<usize>>) -> int {
    rows_total(g, g.len() as int)
}

/// The largest count among the first `n` cells of a row; 0 if there are none.
pub open spec fn row_max(row: Seq<usize>, n: int) -> int
    decreases n,
{
    if n <= 0 {
        0
    } else if row[n - 1] > row_max(row, n - 1) {
        row[n - 1] as int
    } else {
        row_max(row, n - 1)
    }
}

/// The largest count in the first `m` rows of a grid; 0 if there are none.
pub open spec fn rows_max(g: Seq<Seq<usize>>, m: int) -> int
    decreases m,
{
    if m <= 0 {
        0
    } else if row_max(g[m - 1], g[m - 1].len() as int) > rows_max(g, m - 1) {
        row_max(g[m - 1], g[m - 1].len() as int)
    } else {
        rows_max(g, m - 1)
    }
}

/// The largest count that any cell of a grid holds.
pub open spec fn max_grain(g: Seq<Seq<usize>>) -> int {
    rows_max(g, g.len() as int)
}

/// The number of toppling cells among the first `n` cells of row `row`.
pub open spec fn toppling_in_row(g: Seq<Seq<usize>>, row: int, n: int) -> int
    decreases n,
{
    if n <= 0 {
        0
    } else {
        toppling_in_row(g, row, n - 1) + topples(g, row, n - 1)
    }
}

/// The number of toppling cells among the first `m` cells of column `column`.
pub open spec fn toppling_in_column(g: Seq<Seq<usize>>, column: int, m: int) -> int
    decreases m,
{
    if m <= 0 {
        0
    } else {
        toppling_in_column(g, column, m - 1) + topples(g, m - 1, column)
    }
}

/// The grains that one toppling pass sends over the edge of the grid: one
/// for each toppling cell of the first row, of the last row, of the first
/// column and of the last column. A corner cell is counted in a row and in a
/// column, and loses two.
pub open spec fn dissipated(g: Seq<Seq<usize>>, height: nat, width: nat) -> int {
    toppling_in_row(g, 0, width as int) + toppling_in_row(g, height - 1, width as int)
        + toppling_in_column(g, 0, height as int) + toppling_in_column(g, width - 1, height as int)
}

/// The cell at `(row, column)` lies in the first or last row or column.
pub open spec fn on_boundary(height: nat, width: nat, row: int, column: int) -> bool {
    row == 0 || row == height - 1 || column == 0 || column == width - 1
}

/// The number of toppling cells in the first `m` rows.
spec fn toppling_in_rows(g: Seq<Seq<usize>>, m: int, width: int) -> int
    decreases m,
{
    if m <= 0 {
        0
    } else {
        toppling_in_rows(g, m - 1, width) + toppling_in_row(g, m - 1, width)
    }
}

proof fn lemma_row_max(row: Seq<usize>, n: int, bound: int)
    requires
        0 <= n <= row.len(),
        bound > 0,
    ensures
        row_max(row, n) < bound <==> forall|c: int| 0 <= c < n ==> (#[trigger] row[c]) < bound,
    decreases n,
{
    if n > 0 {
        lemma_row_max(row, n - 1, bound);
    }
}

proof fn lemma_rows_max(g: Seq<Seq<usize>>, m: int, bound: int)
    requires
        0 <= m <= g.len(),
        bound > 0,
    ensures
        rows_max(g, m) < bound <==> forall|r: int, c: int|
            0 <= r < m && 0 <= c < g[r].len() ==> (#[trigger] g[r][c]) < bound,
    decreases m,
{
    if m > 0 {
        lemma_rows_max(g, m - 1, bound);
        lemma_row_max(g[m - 1], g[m - 1].len() as int, bound);
    }
}

/// The largest pile is below a positive bound exactly when every pile is.
pub proof fn lemma_max_grain_below(g: Seq<Seq<usize>>, bound: int)
    requires
        bound > 0,
    ensures
        max_grain(g) < bound <==> all_below(g, bound),
{
    lemma_rows_max(g, g.len() as int, bound);
}

proof fn lemma_toppling_in_row_off_grid(g: Seq<Seq<usize>>, row: int, n: int)
    requires
        row < 0 || row >= g.len(),
    ensures
        toppling_in_row(g, row, n) == 0,
    decreases n,
{
    if n > 0 {
        lemma_toppling_in_row_off_grid(g, row, n - 1);
    }
}

proof fn lemma_toppling_in_row_count(g: Seq<Seq<usize>>, row: int, n: int)
    ensures
        toppling_in_row(g, row, n) >= 0,
        toppling_in_row(g, row, n) == 0 <==> forall|c: int|
            0 <= c < n ==> !#[trigger] unstable_at(g, row, c),
    decreases n,
{
    if n > 0 {
        lemma_toppling_in_row_count(g, row, n - 1);
    }
}

proof fn lemma_toppling_in_column_count(g: Seq<Seq<usize>>, column: int, m: int)
    ensures
        toppling_in_column(g, column, m) >= 0,
        toppling_in_column(g, column, m) == 0 <==> forall|r: int|
            0 <= r < m ==> !#[trigger] unstable_at(g, r, column),
    decreases m,
{
    if m > 0 {
        lemma_toppling_in_column_count(g, column, m - 1);
    }
}

/// The first `n` cells of a row after a pass hold what they held before,
/// less four for each that toppled, plus one for each toppling neighbour.
proof fn lemma_toppled_row_prefix(g: Seq<Seq<usize>>, height: nat, width: nat, row: int, n: int)
    requires
        is_grid(g, height, width),
        0 <= row < height,
        0 <= n <= width,
    ensures
        row_total(toppled(g)[row], n) == row_total(g[row], n) - 4 * toppling_in_row(g, row, n)
            + toppling_in_row(g, row - 1, n) + toppling_in_row(g, row + 1, n) + toppling_in_row(
            g,
            row,
            n - 1,
        ) + toppling_in_row(g, row, n + 1) - topples(g, row, 0),
    decreases n,
{
    if n == 0 {
        assert(toppling_in_row(g, row, 1) == toppling_in_row(g, row, 0) + topples(g, row, 0));
    } else {
        lemma_toppled_row_prefix(g, height, width, row, n - 1);
        lemma_toppled_cell_bounds(g, row, n - 1);
        assert(toppled(g)[row][n - 1] == toppled_cell(g, row, n - 1));
        assert(toppling_in_row(g, row, n + 1) == toppling_in_row(g, row, n) + topples(g, row, n));
    }
}

/// A whole row after a pass: the grains that cross its two ends are lost, and
/// it trades grains with the rows above and below.
proof fn lemma_toppled_row(g: Seq<Seq<usize>>, height: nat, width: nat, row: int)
    requires
        is_grid(g, height, width),
        width > 0,
        0 <= row < height,
    ensures
        row_total(toppled(g)[row], width as int) == row_total(g[row], width as int) - 2
            * toppling_in_row(g, row, width as int) + toppling_in_row(g, row - 1, width as int)
            + toppling_in_row(g, row + 1, width as int) - topples(g, row, 0) - topples(
            g,
            row,
            width - 1,
        ),
{
    let w = width as int;
    lemma_toppled_row_prefix(g, height, width, row, w);
    assert(toppling_in_row(g, row, w + 1) == toppling_in_row(g, row, w) + topples(g, row, w));
    assert(toppling_in_row(g, row, w) == toppling_in_row(g, row, w - 1) + topples(g, row, w - 1));
}

proof fn lemma_toppled_rows_prefix(g: Seq<Seq<usize>>, height: nat, width: nat, m: int)
    requires
        is_grid(g, height, width),
        width > 0,
        0 <= m <= height,
    ensures
        rows_total(toppled(g), m) == rows_total(g, m) - 2 * toppling_in_rows(g, m, width as int)
            + toppling_in_rows(g, m - 1, width as int) + toppling_in_rows(g, m + 1, width as int)
            - toppling_in_row(g, 0, width as int) - toppling_in_column(g, 0, m)
            - toppling_in_column(g, width - 1, m),
    decreases m,
{
    let w = width as int;
    if m == 0 {
        assert(toppling_in_rows(g, 1, w) == toppling_in_rows(g, 0, w) + toppling_in_row(g, 0, w));
    } else {
        lemma_toppled_rows_prefix(g, height, width, m - 1);
        lemma_toppled_row(g, height, width, m - 1);
        lemma_toppling_in_row_off_grid(g, -1, w);
        assert(toppling_in_rows(g, m + 1, w) == toppling_in_rows(g, m, w) + toppling_in_row(
            g,
            m,
            w,
        ));
        assert(toppling_in_rows(g, m - 1, w) == toppling_in_rows(g, m - 2, w) + toppling_in_row(
            g,
            m - 2,
            w,
        ) || m == 1);
    }
}

proof fn lemma_row_total_update(row: Seq<usize>, column: int, grains: usize, n: int)
    requires
        0 <= column < row.len(),
        0 <= n <= row.len(),
    ensures
        row_total(row.update(column, grains), n) == row_total(row, n) + (if column < n {
            grains - row[column]
        } else {
            0
        }),
    decreases n,
{
    if n > 0 {
        lemma_row_total_update(row, column, grains, n - 1);
    }
}

proof fn lemma_rows_total_update(g: Seq<Seq<usize>>, row: int, cells: Seq<usize>, m: int)
    requires
        0 <= row < g.len(),
        cells.len() == g[row].len(),
        0 <= m <= g.len(),
    ensures
        rows_total(g.update(row, cells), m) == rows_total(g, m) + (if row < m {
            row_total(cells, cells.len() as int) - row_total(g[row], cells.len() as int)
        } else {
            0
        }),
    decreases m,
{
    if m > 0 {
        lemma_rows_total_update(g, row, cells, m - 1);
    }
}

/// A grain dropped on a cell of the grid raises the total by exactly one.
pub proof fn lemma_deposit_adds_one(g: Seq<Seq<usize>>, row: int, column: int)
    requires
        on_grid(g, row, column),
        g[row][column] < usize::MAX,
    ensures
        total(deposited(g, row, column)) == total(g) + 1,
{
    let grains = (g[row][column] + 1) as usize;
    lemma_row_total_update(g[row], column, grains, g[row].len() as int);
    lemma_rows_total_update(g, row, g[row].update(column, grains), g.len() as int);
}

/// A toppling pass never adds grains: the total falls by what crosses the
/// edge of the grid. It stays the same exactly when no cell of the first or
/// last row or column topples.
pub proof fn lemma_topple_dissipates(g: Seq<Seq<usize>>, height: nat, width: nat)
    requires
        is_grid(g, height, width),
        height > 0,
        width > 0,
    ensures
        total(toppled(g)) == total(g) - dissipated(g, height, width),
        dissipated(g, height, width) >= 0,
        total(toppled(g)) <= total(g),
        total(toppled(g)) == total(g) <==> forall|row: int, column: int|
            #[trigger] unstable_at(g, row, column) ==> !on_boundary(height, width, row, column),
{
    let h = height as int;
    let w = width as int;
    lemma_toppled_rows_prefix(g, height, width, h);
    lemma_toppling_in_row_off_grid(g, h, w);
    assert(toppling_in_rows(g, h + 1, w) == toppling_in_rows(g, h, w) + toppling_in_row(g, h, w));
    assert(toppling_in_rows(g, h, w) == toppling_in_rows(g, h - 1, w) + toppling_in_row(
        g,
        h - 1,
        w,
    ));
    lemma_toppling_in_row_count(g, 0, w);
    lemma_toppling_in_row_count(g, h - 1, w);
    lemma_toppling_in_column_count(g, 0, h);
    lemma_toppling_in_column_count(g, w - 1, h);
    if dissipated(g, height, width) == 0 {
        assert forall|row: int, column: int| #[trigger]
            unstable_at(g, row, column) implies !on_boundary(height, width, row, column) by {
            if row == 0 || row == h - 1 {
                assert(!unstable_at(g, row, column));
            }
            if column == 0 || column == w - 1 {
                assert(!unstable_at(g, row, column));
            }
        }
    }
}

} // verus!
