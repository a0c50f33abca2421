//! Addressing the elements of a 4 by 4 matrix.
//!
//! The transforms of the world are matrices of four columns of four numbers,
//! stored column after column. This module finds the place of an element; the
//! numbers themselves are the caller's.

use vstd::prelude::*;

verus! {

/// Number of rows and of columns.
pub const DIMENSION: usize = 4;

/// An element asked for does not exist.
#[derive(Debug, Clone, Copy, PartialEq, Eq, Structural)]
pub struct OutOfBounds {
    pub row: usize,
    pub col: usize,
}

/// Place of the element in row `row` of column `col` among the sixteen, column
/// after column.
pub open spec fn spec_element_index(row: usize, col: usize) -> usize {
    (col * DIMENSION + row) as usize
}

/// The place of an element among the sixteen.
///
/// Fails exactly when the row or the column is not one of the four, and then
/// tells which were asked for.
pub fn element_index(row: usize, col: usize) -> (r: Result<usize, OutOfBounds>)
    ensures
        row < DIMENSION && col < DIMENSION ==> r == Ok::<usize, OutOfBounds>(
            spec_element_index(row, col),
        ) && spec_element_index(row, col) < 16,
        !(row < DIMENSION && col < DIMENSION) ==> r == Err::<usize, OutOfBounds>(
            OutOfBounds { row, col },
        ),
{
    if row < DIMENSION && col < DIMENSION {
        Ok(col * DIMENSION + row)
    } else {
        Err(OutOfBounds { row, col })
    }
}

/// Different elements have different places.
pub proof fn lemma_element_index_injective(row1: usize, col1: usize, row2: usize, col2: usize)
    requires
        row1 < DIMENSION,
        col1 < DIMENSION,
        row2 < DIMENSION,
        col2 < DIMENSION,
        spec_element_index(row1, col1) == spec_element_index(row2, col2),
    ensures
        row1 == row2,
        col1 == col2,
{
}

} // verus!
