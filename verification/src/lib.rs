//! An Abelian sandpile on a fixed rectangular grid.
//!
//! Every cell holds a number of grains. A cell that holds four grains or more
//! is unstable: in a toppling pass it gives up four grains, one to each of its
//! neighbours above, below, left and right. A grain sent over the edge of the
//! grid is lost. A step runs one toppling pass if any cell is unstable and
//! then drops one grain on a cell chosen at random.

pub mod array;
pub mod grains;
pub mod grid;
pub mod random;
pub mod universe;

pub use universe::{GridError, Universe};
