//! The dense row-major matrix of `p3_matrix`, as this library uses it: a
//! table of canonical field values.

use p3_matrix::dense::{DenseMatrix, RowMajorMatrix};
use p3_matrix::Matrix;
use vstd::prelude::*;

verus! {

/// `p3_matrix::dense::DenseMatrix`, of which `RowMajorMatrix<T>` is the form
/// that owns its values in a `Vec<T>`. Nothing inside it is visible here.
#[verifier::external_type_specification]
#[verifier::external_body]
#[verifier::reject_recursive_types(T)]
#[verifier::reject_recursive_types(V)]
pub struct ExDenseMatrix<T, V>(DenseMatrix<T, V>);

/// The values that a matrix holds, row after row: its field `values`.
pub uninterp spec fn contents(m: RowMajorMatrix<u32>) -> Seq<u32>;

/// The number of values in each row of a matrix: its field `width`.
pub uninterp spec fn columns(m: RowMajorMatrix<u32>) -> nat;

/// `DenseMatrix::new`: the matrix that holds `values`, row after row, in rows
/// of `width` values. Values that do not fill whole rows are left out: the
/// constructor rejects them.
#[verifier::external_body]
pub(crate) fn new_row_major(values: Vec<u32>, width: usize) -> (m: RowMajorMatrix<u32>)
    requires
        width == 0 || values.len() % width == 0,
    ensures
        contents(m) == values@,
        columns(m) == width,
{
    RowMajorMatrix::new(values, width)
}

/// `Matrix::height` of a dense matrix: the number of whole rows that its
/// values fill, and zero for a matrix without columns.
#[verifier::external_body]
pub(crate) fn height(m: &RowMajorMatrix<u32>) -> (h: usize)
    ensures
        h == if columns(*m) == 0 { 0 } else { contents(*m).len() as int / columns(*m) as int },
{
    m.height()
}

/// `Matrix::get` of a dense matrix: the value in row `r` and column `c`, which
/// stands at the position `r * width + c` of the values. Positions past the
/// end are left out: the index would be out of bounds.
#[verifier::external_body]
pub(crate) fn get(m: &RowMajorMatrix<u32>, r: usize, c: usize) -> (v: u32)
    requires
        r * columns(*m) + c < contents(*m).len(),
    ensures
        v == contents(*m)[r * columns(*m) + c],
{
    m.get(r, c)
}

} // verus!
