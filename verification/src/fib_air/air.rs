//! The constraints of the Fibonacci AIR.
//!
//! Each constraint is a residual, a field value that is zero exactly where
//! the constraint holds. The first row is bound to the seeds among the public
//! values, every pair of adjacent rows to the recurrence, and the last row to
//! the claimed result.

use crate::fib_air::columns::{FibonacciCols, NUM_FIBONACCI_COLS};
use crate::fib_air::trace::{
    fibonacci_row, fibonacci_rows, fibonacci_term, follows, is_trace, lemma_first_row,
    lemma_row_follows, rows,
};
use crate::field::{
    baby_bear_add, baby_bear_sub, difference, embed, is_canonical, lemma_difference_zero,
    lemma_embed_canonical, sum, ORDER_U32,
};
use crate::matrix::{get, height};
use p3_matrix::dense::RowMajorMatrix;
use vstd::prelude::*;

verus! {

/// The number of public values: the two seeds and the claimed result.
pub const NUM_PUBLIC_VALUES: usize = 3;

/// The Fibonacci AIR. It holds no state.
pub struct FibonacciAir {}

/// Whether `public_values` are the two seeds and the claimed result, as
/// field elements.
pub open spec fn are_public_values(public_values: Seq<u32>) -> bool {
    &&& public_values.len() == NUM_PUBLIC_VALUES
    &&& forall|k: int| 0 <= k < public_values.len() ==> is_canonical(#[trigger] public_values[k])
}

/// Whether a row holds field elements.
pub open spec fn is_row(row: FibonacciCols<u32>) -> bool {
    is_canonical(row.left) && is_canonical(row.right)
}

/// The constraint on the first row: it holds the two seeds.
pub open spec fn first_row_holds(local: FibonacciCols<u32>, public_values: Seq<u32>) -> bool {
    local.left == public_values[0] && local.right == public_values[1]
}

/// The constraint on the last row: its right value is the claimed result.
pub open spec fn last_row_holds(local: FibonacciCols<u32>, public_values: Seq<u32>) -> bool {
    local.right == public_values[2]
}

/// Whether a table of rows meets every constraint: the first row holds the
/// seeds, every row but the first follows from the row before it, and the
/// last row holds the claimed result.
pub open spec fn satisfies_constraints(
    table: Seq<FibonacciCols<u32>>,
    public_values: Seq<u32>,
) -> bool {
    &&& table.len() >= 1
    &&& first_row_holds(table[0], public_values)
    &&& forall|i: int| 0 <= i < table.len() - 1 ==> follows(#[trigger] table[i], table[i + 1])
    &&& last_row_holds(table[table.len() - 1], public_values)
}

/// The trace of `n` rows for the seeds `a` and `b` meets every constraint
/// where the claimed result is term `n` of the sequence, embedded into the
/// field: the right value of its last row.
pub proof fn lemma_trace_satisfies_constraints(a: u32, b: u32, n: nat)
    requires
        is_canonical(a),
        is_canonical(b),
        n >= 1,
    ensures
        satisfies_constraints(
            fibonacci_rows(a as nat, b as nat, n),
            seq![a, b, embed(fibonacci_term(a as nat, b as nat, n) as int)],
        ),
{
    let table = fibonacci_rows(a as nat, b as nat, n);
    lemma_first_row(a as nat, b as nat);
    assert forall|i: int| 0 <= i < table.len() - 1 implies follows(
        #[trigger] table[i],
        table[i + 1],
    ) by {
        lemma_row_follows(a as nat, b as nat, i as nat);
    }
}

/// A table of `n` rows that meets every constraint is the trace of `n` rows
/// for the seeds among the public values, and the claimed result is term `n`
/// of their sequence, embedded into the field.
pub proof fn lemma_constraints_determine_trace(
    table: Seq<FibonacciCols<u32>>,
    public_values: Seq<u32>,
)
    requires
        are_public_values(public_values),
        satisfies_constraints(table, public_values),
    ensures
        table == fibonacci_rows(public_values[0] as nat, public_values[1] as nat, table.len()),
        public_values[2] == embed(
            fibonacci_term(public_values[0] as nat, public_values[1] as nat, table.len()) as int,
        ),
{
    let a = public_values[0] as nat;
    let b = public_values[1] as nat;
    lemma_rows_agree(table, a, b, (table.len() - 1) as nat);
    assert forall|i: int| 0 <= i < table.len() implies table[i] == fibonacci_row(
        a,
        b,
        i as nat,
    ) by {
        lemma_rows_agree(table, a, b, i as nat);
    }
    assert(table =~= fibonacci_rows(a, b, table.len()));
}

/// In a table whose first row holds the seeds `a` and `b` and whose rows
/// follow one from another, row `i` is row `i` of the trace for `a` and `b`.
proof fn lemma_rows_agree(table: Seq<FibonacciCols<u32>>, a: nat, b: nat, i: nat)
    requires
        i < table.len(),
        a < ORDER_U32,
        b < ORDER_U32,
        table[0] == (FibonacciCols { left: a as u32, right: b as u32 }),
        forall|k: int| 0 <= k < table.len() - 1 ==> follows(#[trigger] table[k], table[k + 1]),
    ensures
        table[i as int] == fibonacci_row(a, b, i),
    decreases i,
{
    if i == 0 {
        lemma_first_row(a, b);
    } else {
        lemma_rows_agree(table, a, b, (i - 1) as nat);
        lemma_row_follows(a, b, (i - 1) as nat);
        assert(follows(table[i - 1], table[i - 1 + 1]));
    }
}

/// Row `i` of a trace.
fn read_row(trace: &RowMajorMatrix<u32>, i: usize) -> (row: FibonacciCols<u32>)
    requires
        is_trace(*trace),
        i < rows(*trace).len(),
    ensures
        row == rows(*trace)[i as int],
        is_row(row),
{
    FibonacciCols::new(get(trace, i, 0), get(trace, i, 1))
}

impl FibonacciAir {
    /// The number of columns of the trace.
    pub fn width(&self) -> (w: usize)
        ensures
            w == NUM_FIBONACCI_COLS,
    {
        NUM_FIBONACCI_COLS
    }

    /// The residuals of the constraint on the first row: the left value less
    /// the first seed, and the right value less the second seed.
    pub fn eval_first_row(&self, local: &FibonacciCols<u32>, public_values: &[u32]) -> (residuals:
        (u32, u32))
        requires
            is_row(*local),
            are_public_values(public_values@),
        ensures
            residuals.0 == difference(local.left, public_values@[0]),
            residuals.1 == difference(local.right, public_values@[1]),
            residuals == (0u32, 0u32) <==> first_row_holds(*local, public_values@),
    {
        proof {
            lemma_difference_zero(local.left, public_values@[0]);
            lemma_difference_zero(local.right, public_values@[1]);
        }
        (
            baby_bear_sub(local.left, public_values[0]),
            baby_bear_sub(local.right, public_values[1]),
        )
    }

    /// The residuals of the constraint on two adjacent rows: the right value
    /// of the first row less the left value of the second, and the sum of the
    /// first row's values less the right value of the second.
    pub fn eval_transition(&self, local: &FibonacciCols<u32>, next: &FibonacciCols<u32>) -> (residuals:
        (u32, u32))
        requires
            is_row(*local),
            is_row(*next),
        ensures
            residuals.0 == difference(local.right, next.left),
            residuals.1 == difference(sum(local.left, local.right), next.right),
            residuals == (0u32, 0u32) <==> follows(*local, *next),
    {
        proof {
            lemma_embed_canonical(local.left + local.right);
            lemma_difference_zero(local.right, next.left);
            lemma_difference_zero(sum(local.left, local.right), next.right);
        }
        (
            baby_bear_sub(local.right, next.left),
            baby_bear_sub(baby_bear_add(local.left, local.right), next.right),
        )
    }

    /// The residual of the constraint on the last row: the right value less
    /// the claimed result.
    pub fn eval_last_row(&self, local: &FibonacciCols<u32>, public_values: &[u32]) -> (residual:
        u32)
        requires
            is_row(*local),
            are_public_values(public_values@),
        ensures
            residual == difference(local.right, public_values@[2]),
            residual == 0 <==> last_row_holds(*local, public_values@),
    {
        proof {
            lemma_difference_zero(local.right, public_values@[2]);
        }
        baby_bear_sub(local.right, public_values[2])
    }

    /// Whether a trace meets every constraint for the given public values.
    pub fn check_constraints(&self, trace: &RowMajorMatrix<u32>, public_values: &[u32]) -> (ok:
        bool)
        requires
            is_trace(*trace),
            are_public_values(public_values@),
        ensures
            ok == satisfies_constraints(rows(*trace), public_values@),
    {
        let n = height(trace);
        if n == 0 {
            return false;
        }
        let first = read_row(trace, 0);
        let (left, right) = self.eval_first_row(&first, public_values);
        if left != 0 || right != 0 {
            return false;
        }
        let mut local = first;
        let mut i: usize = 0;
        while i + 1 < n
            invariant
                is_trace(*trace),
                n == rows(*trace).len(),
                i < n,
                local == rows(*trace)[i as int],
                is_row(local),
                forall|k: int| 0 <= k < i ==> follows(#[trigger] rows(*trace)[k], rows(*trace)[k + 1]),
            decreases n - i,
        {
            let next = read_row(trace, i + 1);
            let (left, right) = self.eval_transition(&local, &next);
            if left != 0 || right != 0 {
                return false;
            }
            local = next;
            i = i + 1;
        }
        self.eval_last_row(&local, public_values) == 0
    }
}

} // verus!
