//! Congruence modulo the group order: the scalars computed step by step
//! agree with the integers they stand for.

use crate::gang::{sc_add, sc_mul, sc_neg, sc_pow, sc_sub};
use crate::modarith::{lemma_pow_mod_adds, lemma_pow_mod_small_exponents, order};
use vstd::arithmetic::div_mod::*;
use vstd::arithmetic::mul::*;
use vstd::prelude::*;

verus! {

/// Whether two integers are the same modulo the group order.
pub open spec fn cong(a: int, b: int) -> bool {
    a % (order() as int) == b % (order() as int)
}

/// Congruence is transitive.
pub proof fn lemma_cong_trans(a: int, b: int, c: int)
    requires
        cong(a, b),
        cong(b, c),
    ensures
        cong(a, c),
{
}

/// Sums of congruent integers are congruent.
pub proof fn lemma_cong_add(a: int, a2: int, b: int, b2: int)
    requires
        cong(a, a2),
        cong(b, b2),
    ensures
        cong(a + b, a2 + b2),
{
    let q = order() as int;
    lemma_add_mod_noop(a, b, q);
    lemma_add_mod_noop(a2, b2, q);
}

/// Differences of congruent integers are congruent.
pub proof fn lemma_cong_sub(a: int, a2: int, b: int, b2: int)
    requires
        cong(a, a2),
        cong(b, b2),
    ensures
        cong(a - b, a2 - b2),
{
    let q = order() as int;
    lemma_sub_mod_noop(a, b, q);
    lemma_sub_mod_noop(a2, b2, q);
}

/// Products of congruent integers are congruent.
pub proof fn lemma_cong_mul(a: int, a2: int, b: int, b2: int)
    requires
        cong(a, a2),
        cong(b, b2),
    ensures
        cong(a * b, a2 * b2),
{
    let q = order() as int;
    lemma_mul_mod_noop(a, b, q);
    lemma_mul_mod_noop(a2, b2, q);
}

/// An integer is congruent to its remainder.
pub proof fn lemma_cong_mod(a: int)
    ensures
        cong(a % (order() as int), a),
        0 <= a % (order() as int) < order(),
{
    lemma_mod_twice(a, order() as int);
    lemma_mod_bound(a, order() as int);
}

/// Integers below the order that are congruent are the same.
pub proof fn lemma_cong_small(a: int, b: int)
    requires
        0 <= a < order(),
        0 <= b < order(),
        cong(a, b),
    ensures
        a == b,
{
    lemma_small_mod(a as nat, order());
    lemma_small_mod(b as nat, order());
}

/// The sum of two scalars is congruent to the sum of the integers.
pub proof fn lemma_sc_add(a: nat, b: nat)
    ensures
        cong(sc_add(a, b) as int, (a + b) as int),
        sc_add(a, b) < order(),
{
    lemma_cong_mod((a + b) as int);
}

/// The product of two scalars is congruent to the product of the integers.
pub proof fn lemma_sc_mul(a: nat, b: nat)
    ensures
        cong(sc_mul(a, b) as int, (a * b) as int),
        sc_mul(a, b) < order(),
{
    lemma_mul_nonnegative(a as int, b as int);
    lemma_cong_mod((a * b) as int);
}

/// The negation of a scalar is congruent to the negated integer.
pub proof fn lemma_sc_neg(a: nat)
    requires
        a < order(),
    ensures
        cong(sc_neg(a) as int, -(a as int)),
        sc_neg(a) < order(),
{
    let q = order() as int;
    if a > 0 {
        lemma_mod_add_multiples_vanish(-(a as int), q);
    }
}

/// The difference of two scalars is congruent to the difference of the
/// integers.
pub proof fn lemma_sc_sub(a: nat, b: nat)
    requires
        b < order(),
    ensures
        cong(sc_sub(a, b) as int, a - b),
        sc_sub(a, b) < order(),
{
    lemma_sc_neg(b);
    lemma_sc_add(a, sc_neg(b));
    lemma_cong_add(a as int, a as int, sc_neg(b) as int, -(b as int));
}

/// A power of a scalar with the next exponent is congruent to the power
/// times the scalar; the power with exponent zero is one.
pub proof fn lemma_sc_pow_step(x: nat, k: nat)
    ensures
        cong(sc_pow(x, k + 1) as int, (x * sc_pow(x, k)) as int),
        sc_pow(x, 0) == 1,
        sc_pow(x, k) < order(),
{
    lemma_pow_mod_adds(x, k, 1, order());
    lemma_pow_mod_small_exponents(x, order());
    crate::modarith::lemma_pow_mod_bound(x, k, order());
    // sc_pow(x, k + 1) == (sc_pow(x, k) * (x % q)) % q
    let p = sc_pow(x, k);
    lemma_mul_nonnegative(p as int, (x % order()) as int);
    lemma_cong_mod((p * (x % order())) as int);
    lemma_cong_mod(x as int);
    lemma_cong_mul(p as int, p as int, (x % order()) as int, x as int);
    lemma_mul_is_commutative(p as int, x as int);
}

} // verus!
