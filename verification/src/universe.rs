//! The sandpile itself: a grid of cells that topples and takes on grains.

use crate::array::{
    array_as_row_major, array_cell, array_clone, array_from_row_major, array_grid,
    array_num_columns, array_num_rows, array_put, array_wf,
};
use crate::grains::{
    dissipated, lemma_deposit_adds_one, lemma_max_grain_below, lemma_topple_dissipates, max_grain,
    on_boundary, total,
};
use crate::grid::{
    all_below, each_below, inflow, is_grid, lemma_row_major_below, lemma_row_major_index,
    lemma_stable_is_fixed, lemma_toppled_cell_bounds, on_grid, relaxed, rows_of, stable_grid,
    ticked, toppled, toppled_cell, topples, unstable_at, CRITICAL,
};
use crate::random::{random_below, sample_uniform};
use array2d::Array2D;
use vstd::prelude::*;

verus! {

/// Why a universe could not be made.
#[derive(Debug, Clone, Copy, PartialEq, Eq, Structural)]
pub enum GridError {
    /// The width or the height is zero.
    EmptyDimension,
    /// The grid would have more cells than can be counted.
    TooLarge,
    /// The number of cells given is not the width times the height.
    LengthMismatch,
}

/// A cell of a new universe holds fewer grains than this.
pub const FRESH_LIMIT: usize = 10;

/// A sandpile on a grid of `height` rows and `width` columns. Neither is
/// zero, and neither changes once the universe is made.
pub struct Universe {
    width: usize,
    height: usize,
    cells: Array2D<usize>,
}

impl View for Universe {
    type V = Seq<Seq<usize>>;

    /// The rows of the grid, each a sequence of grain counts.
    closed spec fn view(&self) -> Seq<Seq<usize>> {
        array_grid(self.cells)
    }
}

impl Universe {
    #[verifier::type_invariant]
    spec fn well_formed(self) -> bool {
        &&& self.width > 0
        &&& self.height > 0
        &&& array_num_rows(self.cells) == self.height
        &&& array_num_columns(self.cells) == self.width
        &&& array_wf(self.cells)
    }

    /// The number of columns.
    pub closed spec fn spec_width(&self) -> usize {
        self.width
    }

    /// The number of rows.
    pub closed spec fn spec_height(&self) -> usize {
        self.height
    }

    /// Makes a universe of `height` rows and `width` columns and fills every
    /// cell with a number of grains drawn uniformly from 0 up to, but not
    /// including, `FRESH_LIMIT`. It fails if a dimension is zero or if the
    /// grid would have more cells than a `usize` can count.
    pub fn new(width: usize, height: usize) -> (made: Result<Universe, GridError>)
        ensures
            made is Ok <==> (width > 0 && height > 0 && width * height <= usize::MAX),
            made == Err::<Universe, GridError>(GridError::EmptyDimension) <==> (width == 0
                || height == 0),
            made == Err::<Universe, GridError>(GridError::TooLarge) <==> (width > 0 && height > 0
                && width * height > usize::MAX),
            made is Ok ==> made->Ok_0.spec_width() == width,
            made is Ok ==> made->Ok_0.spec_height() == height,
            made is Ok ==> is_grid(made->Ok_0@, height as nat, width as nat),
            made is Ok ==> all_below(made->Ok_0@, FRESH_LIMIT as int),
    {
        if width == 0 || height == 0 {
            return Err(GridError::EmptyDimension);
        }
        assert(height * width == width * height) by (nonlinear_arith);
        let count: usize = match height.checked_mul(width) {
            Some(count) => count,
            None => {
                return Err(GridError::TooLarge);
            },
        };
        let grains = sample_cells(count, FRESH_LIMIT);
        let made = Universe::from_cells(width, height, grains);
        proof {
            let g = made->Ok_0@;
            assert forall|row: int, column: int| on_grid(g, row, column) implies (
                #[trigger] g[row][column]) < FRESH_LIMIT by {
                lemma_row_major_index(height as nat, width as nat, row, column);
            }
        }
        made
    }

    /// Makes a universe from its cells in row-major order. It fails if a
    /// dimension is zero or if `cells` does not hold exactly one count for
    /// each position.
    pub fn from_cells(
        width: usize,
        height: usize,
        cells: Vec<usize>,
    ) -> (made: Result<Universe, GridError>)
        ensures
            made is Ok <==> (width > 0 && height > 0 && cells@.len() == width * height),
            made is Ok ==> made->Ok_0.spec_width() == width,
            made is Ok ==> made->Ok_0.spec_height() == height,
            made is Ok ==> is_grid(made->Ok_0@, height as nat, width as nat),
            made is Ok ==> made->Ok_0@ == rows_of(cells@, height as nat, width as nat),
            made == Err::<Universe, GridError>(GridError::EmptyDimension) <==> (width == 0
                || height == 0),
            made == Err::<Universe, GridError>(GridError::LengthMismatch) <==> (width > 0
                && height > 0 && cells@.len() != width * height),
    {
        if width == 0 || height == 0 {
            return Err(GridError::EmptyDimension);
        }
        assert(height * width == width * height) by (nonlinear_arith);
        if height.checked_mul(width).is_none() {
            // More positions than any vector has entries.
            assert(cells@.len() == cells.len());
            return Err(GridError::LengthMismatch);
        }
        match array_from_row_major(&cells, height, width) {
            Ok(array) => Ok(Universe { width, height, cells: array }),
            Err(_) => Err(GridError::LengthMismatch),
        }
    }

    /// The number of columns. Every row has this many cells.
    #[verifier::when_used_as_spec(spec_width)]
    pub fn width(&self) -> (width: usize)
        ensures
            width == self.spec_width(),
            width > 0,
            is_grid(self@, self.spec_height() as nat, width as nat),
    {
        proof {
            use_type_invariant(self);
        }
        self.width
    }

    /// The number of rows.
    #[verifier::when_used_as_spec(spec_height)]
    pub fn height(&self) -> (height: usize)
        ensures
            height == self.spec_height(),
            height > 0,
            is_grid(self@, height as nat, self.spec_width() as nat),
    {
        proof {
            use_type_invariant(self);
        }
        self.height
    }

    /// A copy of all the cells in row-major order: row 0 from left to right,
    /// then row 1, and so on.
    pub fn cells(&self) -> (cells: Vec<usize>)
        ensures
            cells@.len() == self.width() * self.height(),
            rows_of(cells@, self.height() as nat, self.width() as nat) == self@,
            forall|bound: int| #[trigger] all_below(self@, bound) ==> each_below(cells@, bound),
    {
        proof {
            use_type_invariant(self);
            assert(self.height * self.width == self.width * self.height) by (nonlinear_arith);
        }
        let cells = array_as_row_major(&self.cells);
        proof {
            assert forall|bound: int| #[trigger] all_below(self@, bound) implies each_below(
                cells@,
                bound,
            ) by {
                lemma_row_major_below(cells@, self.height as nat, self.width as nat, bound);
            }
        }
        cells
    }

    /// The grains in the cell at `(row, column)`, if the grid has one there.
    pub fn get(&self, row: usize, column: usize) -> (grains: Option<usize>)
        ensures
            grains is Some <==> on_grid(self@, row as int, column as int),
            grains is Some ==> grains->Some_0 == self@[row as int][column as int],
    {
        proof {
            use_type_invariant(self);
        }
        array_cell(&self.cells, row, column)
    }

    /// Whether every cell holds fewer than `bound` grains. The scan stops at
    /// the first cell that does not.
    pub fn every_cell_below(&self, bound: usize) -> (below: bool)
        ensures
            below == all_below(self@, bound as int),
    {
        proof {
            use_type_invariant(self);
        }
        let mut row: usize = 0;
        while row < self.height
            invariant
                array_num_rows(self.cells) == self.height,
                array_num_columns(self.cells) == self.width,
                array_wf(self.cells),
                row <= self.height,
                forall|r: int, c: int|
                    0 <= r < row && 0 <= c < self.width ==> (#[trigger] self@[r][c]) < bound,
            decreases self.height - row,
        {
            let mut column: usize = 0;
            while column < self.width
                invariant
                    array_num_rows(self.cells) == self.height,
                    array_num_columns(self.cells) == self.width,
                    array_wf(self.cells),
                    row < self.height,
                    column <= self.width,
                    forall|r: int, c: int|
                        0 <= r < row && 0 <= c < self.width ==> (#[trigger] self@[r][c]) < bound,
                    forall|c: int| 0 <= c < column ==> (#[trigger] self@[row as int][c]) < bound,
                decreases self.width - column,
            {
                if let Some(grains) = array_cell(&self.cells, row, column) {
                    if grains >= bound {
                        assert(on_grid(self@, row as int, column as int));
                        return false;
                    }
                }
                column += 1;
            }
            row += 1;
        }
        true
    }

    /// Whether no cell is due to topple: every cell holds fewer than four
    /// grains, which is to say that the largest pile does.
    pub fn stable(&self) -> (stable: bool)
        ensures
            stable == stable_grid(self@),
            stable == (max_grain(self@) < CRITICAL),
    {
        proof {
            lemma_max_grain_below(self@, CRITICAL as int);
        }
        self.every_cell_below(CRITICAL)
    }

    /// 1 if the cell at `(row, column)` is on the grid and topples, else 0.
    fn toppling(&self, row: usize, column: usize) -> (count: usize)
        ensures
            count == topples(self@, row as int, column as int),
    {
        proof {
            use_type_invariant(self);
        }
        match array_cell(&self.cells, row, column) {
            Some(grains) if grains >= CRITICAL => 1,
            _ => 0,
        }
    }

    /// What the cell at `(row, column)` holds after a toppling pass. A
    /// neighbour beyond the edge of the grid counts as no neighbour.
    fn settled_at(&self, row: usize, column: usize) -> (grains: usize)
        requires
            on_grid(self@, row as int, column as int),
        ensures
            grains == toppled_cell(self@, row as int, column as int),
    {
        proof {
            use_type_invariant(self);
        }
        let above: usize = if row > 0 {
            self.toppling(row - 1, column)
        } else {
            0
        };
        let below: usize = self.toppling(row + 1, column);
        let left: usize = if column > 0 {
            self.toppling(row, column - 1)
        } else {
            0
        };
        let right: usize = self.toppling(row, column + 1);
        let held: usize = match array_cell(&self.cells, row, column) {
            Some(grains) => grains,
            None => 0,
        };
        let kept: usize = if held >= CRITICAL {
            held - CRITICAL
        } else {
            held
        };
        kept + above + below + left + right
    }

    /// One toppling pass over the whole grid. Every cell that holds four
    /// grains or more loses four, and each of its neighbours on the grid
    /// gains one. Which cells topple is decided from the grid as it was
    /// before the pass, so a cell that only becomes unstable during the pass
    /// waits for the next one.
    pub fn topple(&mut self)
        ensures
            final(self).spec_width() == old(self).spec_width(),
            final(self).spec_height() == old(self).spec_height(),
            final(self)@ == toppled(old(self)@),
            stable_grid(old(self)@) ==> final(self)@ == old(self)@,
            forall|row: int, column: int|
                unstable_at(old(self)@, row, column) ==> #[trigger] final(self)@[row][column]
                    == old(self)@[row][column] - CRITICAL + inflow(old(self)@, row, column),
            total(final(self)@) == total(old(self)@) - dissipated(
                old(self)@,
                old(self).spec_height() as nat,
                old(self).spec_width() as nat,
            ),
            total(final(self)@) <= total(old(self)@),
            total(final(self)@) == total(old(self)@) <==> forall|row: int, column: int|
                #[trigger] unstable_at(old(self)@, row, column) ==> !on_boundary(
                    old(self).spec_height() as nat,
                    old(self).spec_width() as nat,
                    row,
                    column,
                ),
    {
        proof {
            use_type_invariant(&*self);
        }
        let ghost before = self@;
        let mut next = array_clone(&self.cells);
        let mut row: usize = 0;
        while row < self.height
            invariant
                self@ == before,
                self.width > 0,
                array_num_rows(self.cells) == self.height,
                array_num_columns(self.cells) == self.width,
                array_wf(self.cells),
                array_num_rows(next) == self.height,
                array_num_columns(next) == self.width,
                array_wf(next),
                row <= self.height,
                forall|r: int, c: int|
                    0 <= r < row && 0 <= c < self.width ==> #[trigger] array_grid(next)[r][c]
                        == toppled_cell(before, r, c),
            decreases self.height - row,
        {
            let mut column: usize = 0;
            while column < self.width
                invariant
                    self@ == before,
                    array_num_rows(self.cells) == self.height,
                    array_num_columns(self.cells) == self.width,
                    array_wf(self.cells),
                    array_num_rows(next) == self.height,
                    array_num_columns(next) == self.width,
                    array_wf(next),
                    row < self.height,
                    column <= self.width,
                    forall|r: int, c: int|
                        0 <= r < row && 0 <= c < self.width ==> #[trigger] array_grid(next)[r][c]
                            == toppled_cell(before, r, c),
                    forall|c: int|
                        0 <= c < column ==> #[trigger] array_grid(next)[row as int][c]
                            == toppled_cell(before, row as int, c),
                decreases self.width - column,
            {
                let settled: usize = self.settled_at(row, column);
                array_put(&mut next, row, column, settled);
                column += 1;
            }
            row += 1;
        }
        proof {
            let after = array_grid(next);
            assert forall|r: int| 0 <= r < self.height implies #[trigger] after[r] =~= toppled(
                before,
            )[r] by {
                assert forall|c: int| 0 <= c < self.width implies after[r][c] == toppled(
                    before,
                )[r][c] by {
                    lemma_toppled_cell_bounds(before, r, c);
                }
            }
            assert(after =~= toppled(before));
            lemma_topple_dissipates(before, self.height as nat, self.width as nat);
            if stable_grid(before) {
                lemma_stable_is_fixed(before);
            }
            assert forall|r: int, c: int| unstable_at(before, r, c) implies toppled(before)[r][c]
                == before[r][c] - CRITICAL + inflow(before, r, c) by {
                lemma_toppled_cell_bounds(before, r, c);
            }
        }
        self.cells = next;
    }

    /// One step that drops its grain at `(row, column)`: a toppling pass if
    /// any cell is unstable, then one grain more in that cell. A position
    /// off the grid receives no grain. After the pass the cell must not be
    /// full to the limit of `usize`, or the grain would not fit.
    pub fn tick_at(&mut self, row: usize, column: usize)
        requires
            on_grid(old(self)@, row as int, column as int) ==> relaxed(
                old(self)@,
            )[row as int][column as int] < usize::MAX,
        ensures
            final(self).spec_width() == old(self).spec_width(),
            final(self).spec_height() == old(self).spec_height(),
            final(self)@ == ticked(old(self)@, row as int, column as int),
            on_grid(old(self)@, row as int, column as int) ==> total(final(self)@) == total(
                relaxed(old(self)@),
            ) + 1,
    {
        if !self.stable() {
            self.topple();
        }
        proof {
            use_type_invariant(&*self);
        }
        if let Some(grains) = array_cell(&self.cells, row, column) {
            let mut next = array_clone(&self.cells);
            array_put(&mut next, row, column, grains + 1);
            proof {
                lemma_deposit_adds_one(self@, row as int, column as int);
            }
            self.cells = next;
        }
    }

    /// One step: a toppling pass if any cell is unstable, then one grain
    /// more in a cell chosen uniformly at random. After the pass no cell may
    /// be full to the limit of `usize`, or the grain might not fit.
    pub fn tick(&mut self)
        requires
            all_below(relaxed(old(self)@), usize::MAX as int),
        ensures
            final(self).spec_width() == old(self).spec_width(),
            final(self).spec_height() == old(self).spec_height(),
            exists|row: int, column: int|
                on_grid(old(self)@, row, column) && final(self)@ == #[trigger] ticked(
                    old(self)@,
                    row,
                    column,
                ),
            total(final(self)@) == total(relaxed(old(self)@)) + 1,
            stable_grid(old(self)@) ==> total(final(self)@) == total(old(self)@) + 1,
    {
        proof {
            use_type_invariant(&*self);
        }
        let row: usize = random_below(self.height);
        let column: usize = random_below(self.width);
        assert(on_grid(relaxed(self@), row as int, column as int));
        self.tick_at(row, column);
    }
}

/// Draws `count` grain counts, each below `bound`.
fn sample_cells(count: usize, bound: usize) -> (cells: Vec<usize>)
    requires
        bound > 0,
    ensures
        cells@.len() == count,
        each_below(cells@, bound as int),
{
    let mut cells: Vec<usize> = Vec::new();
    let mut drawn: usize = 0;
    while drawn < count
        invariant
            bound > 0,
            drawn <= count,
            cells@.len() == drawn,
            forall|i: int| 0 <= i < drawn ==> (#[trigger] cells@[i]) < bound,
        decreases count - drawn,
    {
        cells.push(sample_uniform(0, bound));
        drawn += 1;
    }
    cells
}

} // verus!
