//! The sandpile as mathematics: a grid is a sequence of rows, each a sequence
//! of grain counts.

use vstd::prelude::*;

verus! {

/// The number of grains at which a cell topples. It equals the number of
/// directions in which a cell has neighbours.
pub const CRITICAL: usize = 4;

/// `g` has `height` rows of `width` cells each.
pub open spec fn is_grid(g: Seq<Seq<usize>>, height: nat, width: nat) -> bool {
    &&& g.len() == height
    &&& forall|row: int| 0 <= row < height ==> (#[trigger] g[row]).len() == width
}

/// `(row, column)` is a position of the grid.
pub open spec fn on_grid(g: Seq<Seq<usize>>, row: int, column: int) -> bool {
    0 <= row < g.len() && 0 <= column < g[row].len()
}

/// The grid that `cells` spells out in row-major order: row 0 from left to
/// right, then row 1, and so on.
pub open spec fn rows_of(cells: Seq<usize>, height: nat, width: nat) -> Seq<Seq<usize>> {
    Seq::new(height, |row: int| Seq::new(width, |column: int| cells[row * width + column]))
}

/// Every cell of the grid holds fewer than `bound` grains.
pub open spec fn all_below(g: Seq<Seq<usize>>, bound: int) -> bool {
    forall|row: int, column: int| on_grid(g, row, column) ==> (#[trigger] g[row][column]) < bound
}

/// Every entry of a list of cells is below `bound`.
pub open spec fn each_below(cells: Seq<usize>, bound: int) -> bool {
    forall|i: int| 0 <= i < cells.len() ==> (#[trigger] cells[i]) < bound
}

/// No cell of the grid is due to topple.
pub open spec fn stable_grid(g: Seq<Seq<usize>>) -> bool {
    all_below(g, CRITICAL as int)
}

/// The cell at `(row, column)` exists and holds enough grains to topple.
pub open spec fn unstable_at(g: Seq<Seq<usize>>, row: int, column: int) -> bool {
    on_grid(g, row, column) && g[row][column] >= CRITICAL
}

/// 1 if the cell at `(row, column)` topples, 0 if it does not or lies
/// outside the grid.
pub open spec fn topples(g: Seq<Seq<usize>>, row: int, column: int) -> int {
    if unstable_at(g, row, column) {
        1
    } else {
        0
    }
}

/// The grains that the cell at `(row, column)` receives in one pass: one from
/// each toppling neighbour above, below, left and right.
pub open spec fn inflow(g: Seq<Seq<usize>>, row: int, column: int) -> int {
    topples(g, row - 1, column) + topples(g, row + 1, column) + topples(g, row, column - 1)
        + topples(g, row, column + 1)
}

/// What the cell at `(row, column)` holds after one pass: it loses four grains
/// if it topples, whatever its position, and gains what flows in. Every term
/// is read from the grid as it was before the pass.
pub open spec fn toppled_cell(g: Seq<Seq<usize>>, row: int, column: int) -> int {
    g[row][column] - CRITICAL * topples(g, row, column) + inflow(g, row, column)
}

/// The grid after one toppling pass over all of its cells at once.
pub open spec fn toppled(g: Seq<Seq<usize>>) -> Seq<Seq<usize>> {
    Seq::new(
        g.len(),
        |row: int| Seq::new(g[row].len(), |column: int| toppled_cell(g, row, column) as usize),
    )
}

/// The grid with one more grain at `(row, column)`; the grid itself if that
/// is no position of it.
pub open spec fn deposited(g: Seq<Seq<usize>>, row: int, column: int) -> Seq<Seq<usize>> {
    if on_grid(g, row, column) {
        g.update(row, g[row].update(column, (g[row][column] + 1) as usize))
    } else {
        g
    }
}

/// The grid after the toppling pass that a step begins with: the pass is made
/// only if some cell is unstable.
pub open spec fn relaxed(g: Seq<Seq<usize>>) -> Seq<Seq<usize>> {
    if stable_grid(g) {
        g
    } else {
        toppled(g)
    }
}

/// The grid after one step that drops its grain at `(row, column)`: a
/// toppling pass if any cell is unstable, then the grain.
pub open spec fn ticked(g: Seq<Seq<usize>>, row: int, column: int) -> Seq<Seq<usize>> {
    deposited(relaxed(g), row, column)
}

/// A position of the row-major order lies inside it.
pub proof fn lemma_row_major_index(height: nat, width: nat, row: int, column: int)
    requires
        0 <= row < height,
        0 <= column < width,
    ensures
        0 <= row * width + column < height * width,
{
    assert(0 <= row * width && row * width + width <= height * width) by (nonlinear_arith)
        requires
            0 <= row < height,
    ;
}

/// Two positions with the same place in the row-major order are the same.
pub proof fn lemma_row_major_unique(width: nat, row1: int, column1: int, row2: int, column2: int)
    requires
        0 <= column1 < width,
        0 <= column2 < width,
        row1 * width + column1 == row2 * width + column2,
    ensures
        row1 == row2,
        column1 == column2,
{
    assert(row1 == row2) by (nonlinear_arith)
        requires
            0 <= column1 < width,
            0 <= column2 < width,
            row1 * width + column1 == row2 * width + column2,
    ;
}

/// Cells listed in row-major order keep every bound that holds of the grid
/// they spell out.
pub proof fn lemma_row_major_below(cells: Seq<usize>, height: nat, width: nat, bound: int)
    requires
        cells.len() == height * width,
        all_below(rows_of(cells, height, width), bound),
    ensures
        each_below(cells, bound),
{
    let g = rows_of(cells, height, width);
    assert forall|i: int| 0 <= i < cells.len() implies (#[trigger] cells[i]) < bound by {
        let w = width as int;
        assert(w > 0) by (nonlinear_arith)
            requires
                0 <= i < height * w,
        ;
        let row = i / w;
        let column = i % w;
        vstd::arithmetic::div_mod::lemma_fundamental_div_mod(i, w);
        vstd::arithmetic::div_mod::lemma_mod_bound(i, w);
        assert(0 <= row < height) by (nonlinear_arith)
            requires
                0 <= i < height * w,
                i == w * row + column,
                0 <= column < w,
        ;
        assert(w * row == row * w) by (nonlinear_arith);
        assert(on_grid(g, row, column));
        assert(g[row][column] == cells[i]);
    }
}

/// A cell never holds more after a pass than the larger of what it held
/// before and 7, so the count still fits the cell.
pub proof fn lemma_toppled_cell_bounds(g: Seq<Seq<usize>>, row: int, column: int)
    requires
        on_grid(g, row, column),
    ensures
        0 <= toppled_cell(g, row, column) <= usize::MAX,
        toppled_cell(g, row, column) <= g[row][column] || toppled_cell(g, row, column) < 8,
{
}

/// The pass that a step begins with keeps every bound of at least 8 that
/// holds of all the cells. In particular, where no cell is full to the limit
/// of `usize` before the pass, none is after it.
pub proof fn lemma_relaxed_below(g: Seq<Seq<usize>>, bound: int)
    requires
        all_below(g, bound),
        bound >= 8,
    ensures
        all_below(relaxed(g), bound),
{
    if !stable_grid(g) {
        let after = toppled(g);
        assert forall|row: int, column: int| on_grid(after, row, column) implies (
            #[trigger] after[row][column]) < bound by {
            lemma_toppled_cell_bounds(g, row, column);
            assert(g[row][column] < bound);
        }
    }
}

/// A toppling pass leaves a stable grid as it is.
pub proof fn lemma_stable_is_fixed(g: Seq<Seq<usize>>)
    requires
        stable_grid(g),
    ensures
        toppled(g) == g,
{
    assert forall|row: int| 0 <= row < g.len() implies #[trigger] toppled(g)[row] =~= g[row] by {
        assert forall|column: int| 0 <= column < g[row].len() implies toppled(g)[row][column]
            == g[row][column] by {
            assert(toppled_cell(g, row, column) == g[row][column]);
        }
    }
    assert(toppled(g) =~= g);
}

} // verus!
