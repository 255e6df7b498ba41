//! The two-dimensional array that stores the cells, and what is taken on
//! trust about it.
//!
//! `Array2D` comes from the `array2d` crate. The verifier cannot look inside
//! it, so this module names what an array holds and states, without proof,
//! what each of the crate's methods used here does. On top of that it proves
//! the two-dimensional reading of an array that the rest of the library uses.

use crate::grid::{lemma_row_major_index, lemma_row_major_unique, on_grid, rows_of};
use array2d::Array2D;
use vstd::prelude::*;

verus! {

/// `array2d::Array2D`, declared so that it can stand in fields and signatures.
/// Nothing inside it is visible to the verifier.
#[verifier::external_type_specification]
#[verifier::external_body]
#[verifier::reject_recursive_types(T)]
pub struct ExArray2D<T>(array2d::Array2D<T>);

/// `array2d::Error`, declared so that it can be returned and then dropped.
#[verifier::external_type_specification]
#[verifier::external_body]
pub struct ExArrayError(array2d::Error);

/// The elements that an array holds, in row-major order: row 0 from left to
/// right, then row 1, and so on.
pub uninterp spec fn array_elements(a: Array2D<usize>) -> Seq<usize>;

/// The number of rows that an array was made with.
pub uninterp spec fn array_num_rows(a: Array2D<usize>) -> nat;

/// The number of columns that an array was made with.
pub uninterp spec fn array_num_columns(a: Array2D<usize>) -> nat;

/// An array holds exactly one element for each of its positions.
pub open spec fn array_wf(a: Array2D<usize>) -> bool {
    array_elements(a).len() == array_num_rows(a) * array_num_columns(a)
}

/// Calls `Array2D::from_row_major`. It succeeds exactly when `elements` has
/// `num_rows * num_columns` entries, and the array then holds those entries
/// in the order given. The product must fit in a `usize`, since the crate
/// computes it before it compares.
#[verifier::external_body]
pub(crate) fn array_from_row_major(
    elements: &Vec<usize>,
    num_rows: usize,
    num_columns: usize,
) -> (made: Result<Array2D<usize>, array2d::Error>)
    requires
        num_rows * num_columns <= usize::MAX,
    ensures
        made is Ok <==> (elements@.len() == num_rows * num_columns),
        made is Ok ==> array_elements(made->Ok_0) == elements@,
        made is Ok ==> array_num_rows(made->Ok_0) == num_rows,
        made is Ok ==> array_num_columns(made->Ok_0) == num_columns,
{
    Array2D::from_row_major(elements.as_slice(), num_rows, num_columns)
}

/// Calls `Array2D::as_row_major`: a copy of the elements in row-major order.
#[verifier::external_body]
pub(crate) fn array_as_row_major(a: &Array2D<usize>) -> (elements: Vec<usize>)
    ensures
        elements@ == array_elements(*a),
{
    a.as_row_major()
}

/// Calls `Array2D::clone`: an array with the same shape and elements.
#[verifier::external_body]
pub(crate) fn array_clone(a: &Array2D<usize>) -> (copy: Array2D<usize>)
    ensures
        array_elements(copy) == array_elements(*a),
        array_num_rows(copy) == array_num_rows(*a),
        array_num_columns(copy) == array_num_columns(*a),
{
    a.clone()
}

/// Calls `Array2D::get`. Inside the array it yields the element at index
/// `row * num_columns + column` of the row-major order, outside it `None`.
#[verifier::external_body]
pub(crate) fn array_get(a: &Array2D<usize>, row: usize, column: usize) -> (element: Option<usize>)
    requires
        array_wf(*a),
    ensures
        element is Some <==> (row < array_num_rows(*a) && column < array_num_columns(*a)),
        element is Some ==> element->Some_0 == array_elements(*a)[row * array_num_columns(*a)
            + column],
{
    a.get(row, column).copied()
}

/// Calls `Array2D::set`. Inside the array it replaces the element at index
/// `row * num_columns + column` of the row-major order and reports success;
/// outside it changes nothing and reports failure. The shape never changes.
#[verifier::external_body]
pub(crate) fn array_set(
    a: &mut Array2D<usize>,
    row: usize,
    column: usize,
    element: usize,
) -> (done: Result<(), array2d::Error>)
    requires
        array_wf(*old(a)),
    ensures
        array_num_rows(*final(a)) == array_num_rows(*old(a)),
        array_num_columns(*final(a)) == array_num_columns(*old(a)),
        done is Ok <==> (row < array_num_rows(*old(a)) && column < array_num_columns(*old(a))),
        done is Ok ==> array_elements(*final(a)) == array_elements(*old(a)).update(
            row * array_num_columns(*old(a)) + column,
            element,
        ),
        done is Err ==> array_elements(*final(a)) == array_elements(*old(a)),
{
    a.set(row, column, element)
}

/// The array read as a grid: one sequence of cells for each row.
pub open spec fn array_grid(a: Array2D<usize>) -> Seq<Seq<usize>> {
    rows_of(array_elements(a), array_num_rows(a), array_num_columns(a))
}

/// Reads the cell at `(row, column)`, if the grid has one there.
pub(crate) fn array_cell(a: &Array2D<usize>, row: usize, column: usize) -> (cell: Option<usize>)
    requires
        array_wf(*a),
    ensures
        cell is Some <==> on_grid(array_grid(*a), row as int, column as int),
        cell is Some ==> cell->Some_0 == array_grid(*a)[row as int][column as int],
{
    array_get(a, row, column)
}

/// Writes `grains` into the cell at `(row, column)` and leaves every other
/// cell as it was.
pub(crate) fn array_put(a: &mut Array2D<usize>, row: usize, column: usize, grains: usize)
    requires
        array_wf(*old(a)),
        on_grid(array_grid(*old(a)), row as int, column as int),
    ensures
        array_wf(*final(a)),
        array_num_rows(*final(a)) == array_num_rows(*old(a)),
        array_num_columns(*final(a)) == array_num_columns(*old(a)),
        array_grid(*final(a)) == array_grid(*old(a)).update(
            row as int,
            array_grid(*old(a))[row as int].update(column as int, grains),
        ),
{
    let ghost height = array_num_rows(*a);
    let ghost width = array_num_columns(*a);
    let ghost before = array_grid(*a);
    let _ = array_set(a, row, column, grains);
    proof {
        lemma_row_major_index(height, width, row as int, column as int);
        let after = array_grid(*a);
        let expected = before.update(row as int, before[row as int].update(column as int, grains));
        assert forall|r: int| 0 <= r < height implies #[trigger] after[r] == expected[r] by {
            assert forall|c: int| 0 <= c < width implies after[r][c] == expected[r][c] by {
                lemma_row_major_index(height, width, r, c);
                if r * width + c == row * width + column {
                    lemma_row_major_unique(width, r, c, row as int, column as int);
                }
            }
            assert(after[r] =~= expected[r]);
        }
        assert(after =~= expected);
    }
}

} // verus!
