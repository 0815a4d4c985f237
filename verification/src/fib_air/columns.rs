//! The column layout of the Fibonacci trace.

use vstd::prelude::*;

verus! {

/// The number of columns of the trace.
pub const NUM_FIBONACCI_COLS: usize = 2;

/// One row of the trace: two consecutive terms of the sequence.
#[derive(Debug, PartialEq, Eq)]
pub struct FibonacciCols<F> {
    pub left: F,
    pub right: F,
}

impl<F> FibonacciCols<F> {
    /// The row that holds `left` in column 0 and `right` in column 1.
    pub fn new(left: F, right: F) -> (row: FibonacciCols<F>)
        ensures
            row.left == left,
            row.right == right,
    {
        FibonacciCols { left, right }
    }
}

} // verus!
