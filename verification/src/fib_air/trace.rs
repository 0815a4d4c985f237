//! Generation of the Fibonacci trace.

use crate::fib_air::columns::{FibonacciCols, NUM_FIBONACCI_COLS};
use crate::field::{
    baby_bear_add, embed, is_canonical, lemma_embed_canonical, lemma_embed_sum, sum, ORDER_U32,
};
use crate::matrix::{columns, contents, new_row_major};
use p3_matrix::dense::RowMajorMatrix;
use vstd::arithmetic::power2::{is_pow2, is_pow2_equiv, lemma_pow2, lemma_pow2_pos, pow2};
use vstd::prelude::*;

verus! {

/// Whether `n` is a power of two.
pub open spec fn is_power_of_two(n: nat) -> bool {
    exists|k: nat| n == pow2(k)
}

/// The `i`-th term of the sequence that starts with `a` and `b` and in which
/// every later term is the sum of the two before it.
pub open spec fn fibonacci_term(a: nat, b: nat, i: nat) -> nat
    decreases i,
{
    if i == 0 {
        a
    } else if i == 1 {
        b
    } else {
        fibonacci_term(a, b, (i - 2) as nat) + fibonacci_term(a, b, (i - 1) as nat)
    }
}

/// Row `i` of the trace for the seeds `a` and `b`: the terms `i` and `i + 1`
/// of the sequence, embedded into the field.
pub open spec fn fibonacci_row(a: nat, b: nat, i: nat) -> FibonacciCols<u32> {
    FibonacciCols {
        left: embed(fibonacci_term(a, b, i) as int),
        right: embed(fibonacci_term(a, b, i + 1) as int),
    }
}

/// The first `n` rows of the trace for the seeds `a` and `b`.
pub open spec fn fibonacci_rows(a: nat, b: nat, n: nat) -> Seq<FibonacciCols<u32>> {
    Seq::new(n, |i: int| fibonacci_row(a, b, i as nat))
}

/// Whether `next` is the row that the recurrence puts after `local`: its left
/// value is the right value of `local`, its right value the sum of both
/// values of `local`.
pub open spec fn follows(local: FibonacciCols<u32>, next: FibonacciCols<u32>) -> bool {
    &&& next.left == local.right
    &&& next.right == sum(local.left, local.right)
}

/// The rows of a two-column matrix.
pub open spec fn rows(m: RowMajorMatrix<u32>) -> Seq<FibonacciCols<u32>> {
    Seq::new(
        contents(m).len() / 2,
        |i: int| FibonacciCols { left: contents(m)[2 * i], right: contents(m)[2 * i + 1] },
    )
}

/// Whether a matrix is a table of field elements in whole rows of two.
pub open spec fn is_trace(m: RowMajorMatrix<u32>) -> bool {
    &&& columns(m) == NUM_FIBONACCI_COLS
    &&& contents(m).len() % 2 == 0
    &&& forall|j: int| 0 <= j < contents(m).len() ==> is_canonical(#[trigger] contents(m)[j])
}

/// Whether a matrix is the trace of `n` rows for the seeds `a` and `b`.
pub open spec fn is_fibonacci_trace(m: RowMajorMatrix<u32>, a: nat, b: nat, n: nat) -> bool {
    &&& is_trace(m)
    &&& contents(m).len() == 2 * n
    &&& rows(m) == fibonacci_rows(a, b, n)
}

/// The inputs for which a trace is generated: a number of rows that is a
/// power of two and whose values a `usize` can count, and seeds that are
/// field elements.
pub open spec fn valid_inputs(a: u32, b: u32, n: usize) -> bool {
    &&& is_power_of_two(n as nat)
    &&& 2 * n <= usize::MAX
    &&& is_canonical(a)
    &&& is_canonical(b)
}

/// Row 0 of the trace holds the embedded seeds.
pub proof fn lemma_first_row(a: nat, b: nat)
    ensures
        fibonacci_row(a, b, 0) == (FibonacciCols { left: embed(a as int), right: embed(b as int) }),
        a < ORDER_U32 && b < ORDER_U32 ==> fibonacci_row(a, b, 0) == (FibonacciCols {
            left: a as u32,
            right: b as u32,
        }),
{
    lemma_embed_canonical(a as int);
    lemma_embed_canonical(b as int);
}

/// Every row of the trace but the first follows from the row before it, and
/// all its values are field elements.
pub proof fn lemma_row_follows(a: nat, b: nat, i: nat)
    ensures
        follows(fibonacci_row(a, b, i), fibonacci_row(a, b, i + 1)),
        is_canonical(fibonacci_row(a, b, i).left),
        is_canonical(fibonacci_row(a, b, i).right),
{
    lemma_embed_sum(fibonacci_term(a, b, i) as int, fibonacci_term(a, b, i + 1) as int);
    lemma_embed_canonical(fibonacci_term(a, b, i) as int);
    lemma_embed_canonical(fibonacci_term(a, b, i + 1) as int);
}

/// Two traces for the same seeds and the same number of rows hold the same
/// values in the same layout.
pub proof fn lemma_trace_deterministic(
    first: RowMajorMatrix<u32>,
    second: RowMajorMatrix<u32>,
    a: nat,
    b: nat,
    n: nat,
)
    requires
        is_fibonacci_trace(first, a, b, n),
        is_fibonacci_trace(second, a, b, n),
    ensures
        contents(first) == contents(second),
        columns(first) == columns(second),
{
    assert forall|j: int| 0 <= j < 2 * n implies contents(first)[j] == contents(second)[j] by {
        let i = j / 2;
        assert(rows(first)[i] == rows(second)[i]);
    }
    assert(contents(first) =~= contents(second));
}

/// Whether `n` is a power of two.
pub fn check_power_of_two(n: usize) -> (r: bool)
    ensures
        r == is_power_of_two(n as nat),
{
    let mut m: usize = n;
    while m > 1 && m % 2 == 0
        invariant
            is_pow2(m as int) == is_pow2(n as int),
        decreases m,
    {
        proof {
            reveal_with_fuel(is_pow2, 2);
        }
        m = m / 2;
    }
    proof {
        reveal_with_fuel(is_pow2, 2);
        is_pow2_equiv(n as int);
        if is_power_of_two(n as nat) {
            let k = choose|k: nat| n as nat == pow2(k);
            lemma_pow2(k);
        }
        if is_pow2(n as int) {
            let k = choose|k: nat| vstd::arithmetic::power::pow(2, k) == n as int;
            lemma_pow2(k);
        }
    }
    m == 1
}

/// The trace of `n` rows for the seeds `a` and `b`: row 0 holds the seeds,
/// and every later row follows from the row before it.
pub fn generate_trace_rows(a: u32, b: u32, n: usize) -> (trace: RowMajorMatrix<u32>)
    requires
        valid_inputs(a, b, n),
    ensures
        is_fibonacci_trace(trace, a as nat, b as nat, n as nat),
        columns(trace) == 2,
        rows(trace).len() == n,
        rows(trace)[0] == (FibonacciCols { left: embed(a as int), right: embed(b as int) }),
        rows(trace)[0] == (FibonacciCols { left: a, right: b }),
        forall|i: int| 1 <= i < n ==> follows(#[trigger] rows(trace)[i - 1], rows(trace)[i]),
{
    proof {
        let k = choose|k: nat| n as nat == pow2(k);
        lemma_pow2_pos(k);
        lemma_first_row(a as nat, b as nat);
    }
    let mut row = FibonacciCols::new(a, b);
    let mut values: Vec<u32> = Vec::new();
    values.push(row.left);
    values.push(row.right);
    let mut i: usize = 1;
    while i < n
        invariant
            1 <= i <= n,
            2 * n <= usize::MAX,
            values.len() == 2 * i,
            row == fibonacci_row(a as nat, b as nat, (i - 1) as nat),
            forall|k: int|
                0 <= k < i ==> values[2 * k] == (#[trigger] fibonacci_row(
                    a as nat,
                    b as nat,
                    k as nat,
                )).left && values[2 * k + 1] == fibonacci_row(a as nat, b as nat, k as nat).right,
        decreases n - i,
    {
        proof {
            lemma_row_follows(a as nat, b as nat, (i - 1) as nat);
        }
        row = FibonacciCols::new(row.right, baby_bear_add(row.left, row.right));
        values.push(row.left);
        values.push(row.right);
        i = i + 1;
    }
    let trace = new_row_major(values, NUM_FIBONACCI_COLS);
    proof {
        assert forall|j: int| 0 <= j < contents(trace).len() implies is_canonical(
            #[trigger] contents(trace)[j],
        ) by {
            let k = j / 2;
            lemma_row_follows(a as nat, b as nat, k as nat);
            assert(fibonacci_row(a as nat, b as nat, k as nat).left == contents(trace)[2 * k]);
        }
        assert(rows(trace) =~= fibonacci_rows(a as nat, b as nat, n as nat));
        assert forall|i: int| 1 <= i < n implies follows(
            #[trigger] rows(trace)[i - 1],
            rows(trace)[i],
        ) by {
            lemma_row_follows(a as nat, b as nat, (i - 1) as nat);
        }
    }
    trace
}

/// The trace of `n` rows for the seeds `a` and `b`, or nothing where the
/// inputs are not valid: no trace has a number of rows that is not a power
/// of two.
pub fn try_generate_trace_rows(a: u32, b: u32, n: usize) -> (result: Option<RowMajorMatrix<u32>>)
    ensures
        result.is_some() == valid_inputs(a, b, n),
        result matches Some(trace) ==> {
            &&& is_fibonacci_trace(trace, a as nat, b as nat, n as nat)
            &&& rows(trace)[0] == (FibonacciCols { left: a, right: b })
            &&& forall|i: int| 1 <= i < n ==> follows(#[trigger] rows(trace)[i - 1], rows(trace)[i])
        },
{
    if check_power_of_two(n) && n <= usize::MAX / 2 && a < ORDER_U32 && b < ORDER_U32 {
        Some(generate_trace_rows(a, b, n))
    } else {
        None
    }
}

/// The trace of `n` rows for the seeds 0 and 1, with the public values that
/// claim `x` as the right value of its last row: the seeds and `x`, as field
/// elements. Whether the claim is true is not looked at here.
pub fn generate_trace_and_pvs(n: usize, x: usize) -> (result: (RowMajorMatrix<u32>, Vec<u32>))
    requires
        valid_inputs(0, 1, n),
        x < ORDER_U32,
    ensures
        is_fibonacci_trace(result.0, 0, 1, n as nat),
        result.1@ == seq![0u32, 1u32, x as u32],
{
    let a: u32 = 0;
    let b: u32 = 1;
    let mut pvs: Vec<u32> = Vec::new();
    pvs.push(a);
    pvs.push(b);
    pvs.push(x as u32);
    let trace = generate_trace_rows(a, b, n);
    proof {
        assert(pvs@ =~= seq![0u32, 1u32, x as u32]);
    }
    (trace, pvs)
}

} // verus!
