//! Arithmetic of the Baby Bear field on canonical values.
//!
//! A field element is held as its canonical representative, a `u32` below
//! [`ORDER_U32`]. The arithmetic itself is done by `p3_baby_bear::BabyBear`.

use p3_baby_bear::BabyBear;
use p3_field::{AbstractField, PrimeField32};
use vstd::arithmetic::div_mod::{lemma_add_mod_noop, lemma_mod_multiples_vanish, lemma_small_mod};
use vstd::prelude::*;

verus! {

/// The order of the Baby Bear field, the prime `2^31 - 2^27 + 1`.
pub const ORDER_U32: u32 = 0x78000001;

/// Whether `v` is the canonical representative of a field element.
pub open spec fn is_canonical(v: u32) -> bool {
    v < ORDER_U32
}

/// The canonical embedding of an integer into the field.
pub open spec fn embed(n: int) -> u32 {
    (n % (ORDER_U32 as int)) as u32
}

/// The sum of two field elements.
pub open spec fn sum(x: u32, y: u32) -> u32 {
    embed(x + y)
}

/// The difference of two field elements.
pub open spec fn difference(x: u32, y: u32) -> u32 {
    embed(x - y)
}

/// Every embedded integer is canonical, and a canonical value embeds to itself.
pub proof fn lemma_embed_canonical(n: int)
    ensures
        is_canonical(embed(n)),
        0 <= n < ORDER_U32 ==> embed(n) == n,
{
    if 0 <= n < ORDER_U32 {
        lemma_small_mod(n as nat, ORDER_U32 as nat);
    }
}

/// The embedding carries integer addition to field addition.
pub proof fn lemma_embed_sum(m: int, n: int)
    ensures
        sum(embed(m), embed(n)) == embed(m + n),
{
    lemma_add_mod_noop(m, n, ORDER_U32 as int);
}

/// A difference is zero exactly when its two operands are the same element.
pub proof fn lemma_difference_zero(x: u32, y: u32)
    requires
        is_canonical(x),
        is_canonical(y),
    ensures
        difference(x, y) == 0 <==> x == y,
{
    let d = x - y;
    if d > 0 {
        lemma_small_mod(d as nat, ORDER_U32 as nat);
    } else if d < 0 {
        lemma_small_mod((d + ORDER_U32) as nat, ORDER_U32 as nat);
        lemma_mod_multiples_vanish(1, d, ORDER_U32 as int);
    }
}

/// `BabyBear`'s `Add::add`, on canonical values.
///
/// `AbstractField::from_canonical_u32` takes each operand into the field and
/// `PrimeField32::as_canonical_u32` reads the result back. The contract claims
/// that the canonical value of the result is the sum of the operands modulo
/// the field order. Values that are not canonical are left out: the
/// conversion rejects them.
#[verifier::external_body]
pub(crate) fn baby_bear_add(x: u32, y: u32) -> (r: u32)
    requires
        is_canonical(x),
        is_canonical(y),
    ensures
        r == sum(x, y),
{
    (BabyBear::from_canonical_u32(x) + BabyBear::from_canonical_u32(y)).as_canonical_u32()
}

/// `BabyBear`'s `Sub::sub`, on canonical values.
///
/// `AbstractField::from_canonical_u32` takes each operand into the field and
/// `PrimeField32::as_canonical_u32` reads the result back. The contract claims
/// that the canonical value of the result is the difference of the operands
/// modulo the field order. Values that are not canonical are left out: the
/// conversion rejects them.
#[verifier::external_body]
pub(crate) fn baby_bear_sub(x: u32, y: u32) -> (r: u32)
    requires
        is_canonical(x),
        is_canonical(y),
    ensures
        r == difference(x, y),
{
    (BabyBear::from_canonical_u32(x) - BabyBear::from_canonical_u32(y)).as_canonical_u32()
}

} // verus!
