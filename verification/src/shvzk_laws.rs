//! Completeness of the proof of a correct vote: what the prover makes for an
//! honest ballot, the verifier accepts. And a proof that the verifier
//! accepts is not accepted with one of its responses changed.

use crate::congruence::{
    cong, lemma_cong_add, lemma_cong_mul, lemma_cong_sub, lemma_cong_trans, lemma_sc_add,
    lemma_sc_mul, lemma_sc_neg, lemma_sc_pow_step, lemma_sc_sub,
};
use crate::encrypted::{is_encryption_of, EncryptingVoteView};
use crate::gang::{
    ge_add, ge_neg, ge_scale, ge_zero, is_member, lemma_add_associates, lemma_add_commutes,
    lemma_add_zero, lemma_generator_multiple_is_member, lemma_neg_cancels, lemma_scale_adds,
    lemma_scale_distributes, lemma_scale_is_member, lemma_scale_multiplies, lemma_scale_reduces,
    sc_add, sc_mul, sc_neg, sc_pow, sc_sub,
};
use crate::gargamel::{
    ct_encrypt, ct_zero, lemma_add_interchange, lemma_encrypt_adds, lemma_encrypt_scales,
};
use crate::generator::{gen_pow, generator_value};
use crate::modarith::{modulus, order};
use crate::shvzk::{
    announcement, bit_scalar, challenge_scalar, coin_sum, coins_needed, commit, d_message, ds_sum,
    factor, first_digest, in_scalar_range, level_holds, levels_hold, pad_ciphertexts, pad_coins,
    poly_mul_linear, prove_announcements, prove_ds, prove_spec, response, responses_in_range,
    rho_sum, second_digest, selector, selector_product, slot_poly, slots_sum, verify_spec,
    ProofView,
};
use crate::primality::{lemma_powers_distinct, lemma_prime_order_is_full};
use crate::tally_laws::{lemma_counts_are_distinct, lemma_generator_is_member};
use crate::unit_vector::{bit_of, bits_for, two_pow, unit_entry, MAX_OPTIONS};
use vstd::arithmetic::div_mod::*;
use vstd::arithmetic::mul::*;
use vstd::prelude::*;

verus! {

/// A commitment depends on its message and its coin modulo the group order
/// only.
pub proof fn lemma_commit_cong(h: nat, m1: nat, r1: nat, m2: nat, r2: nat)
    requires
        is_member(h),
        cong(m1 as int, m2 as int),
        cong(r1 as int, r2 as int),
    ensures
        commit(h, m1, r1) == commit(h, m2, r2),
{
    lemma_generator_is_member();
    lemma_scale_reduces(h, m1);
    lemma_scale_reduces(h, m2);
    lemma_scale_reduces(generator_value(), r1);
    lemma_scale_reduces(generator_value(), r2);
}

/// A commitment taken `k` times, plus a commitment, is the commitment to
/// the first message times `k` plus the second, with the coins combined
/// alike.
pub proof fn lemma_commit_combine(h: nat, m1: nat, r1: nat, k: nat, m2: nat, r2: nat)
    requires
        is_member(h),
    ensures
        ge_add(ge_scale(commit(h, m1, r1), k), commit(h, m2, r2)) == commit(
            h,
            m1 * k + m2,
            r1 * k + r2,
        ),
{
    lemma_generator_is_member();
    let g = generator_value();
    lemma_scale_distributes(ge_scale(h, m1), gen_pow(r1), k);
    lemma_scale_multiplies(h, m1, k);
    lemma_scale_multiplies(g, r1, k);
    lemma_add_interchange(ge_scale(h, m1 * k), gen_pow(r1 * k), ge_scale(h, m2), gen_pow(r2));
    lemma_scale_adds(h, m1 * k, m2);
    lemma_scale_adds(g, r1 * k, r2);
}

/// Every level of the prover's answer holds against its announcement: the
/// committed bit is zero or one.
pub proof fn lemma_level_holds(h: nat, ith: nat, coins: Seq<nat>, cx: nat, l: int)
    requires
        is_member(h),
        0 <= l,
        5 * l + 4 < coins.len(),
        in_scalar_range(coins),
    ensures
        level_holds(h, cx, announcement(h, ith, coins, l), response(ith, coins, cx, l)),
{
    let i = bit_scalar(ith, l as nat);
    let alpha = coins[5 * l];
    let beta = coins[5 * l + 1];
    let gamma = coins[5 * l + 2];
    let delta = coins[5 * l + 3];
    let iba = announcement(h, ith, coins, l);
    let zwv = response(ith, coins, cx, l);
    let z = zwv.0;
    let w = zwv.1;
    let v = zwv.2;
    // first relation
    lemma_commit_combine(h, i, alpha, cx, beta, gamma);
    lemma_sc_mul(i, cx);
    lemma_sc_add(sc_mul(i, cx), beta);
    lemma_cong_add(sc_mul(i, cx) as int, (i * cx) as int, beta as int, beta as int);
    lemma_sc_mul(alpha, cx);
    lemma_sc_add(sc_mul(alpha, cx), gamma);
    lemma_cong_add(sc_mul(alpha, cx) as int, (alpha * cx) as int, gamma as int, gamma as int);
    lemma_commit_cong(h, i * cx + beta, alpha * cx + gamma, z, w);
    // second relation
    let s = sc_sub(cx, z);
    lemma_sc_sub(cx, z);
    lemma_commit_combine(h, i, alpha, s, sc_mul(i, beta), delta);
    lemma_sc_mul(alpha, s);
    lemma_sc_add(sc_mul(alpha, s), delta);
    lemma_cong_add(sc_mul(alpha, s) as int, (alpha * s) as int, delta as int, delta as int);
    assert(cong((i * s + sc_mul(i, beta)) as int, 0)) by {
        if i == 0 {
            assert(i * s == 0) by (nonlinear_arith)
                requires
                    i == 0,
            ;
            assert(i * beta == 0) by (nonlinear_arith)
                requires
                    i == 0,
            ;
            lemma_small_mod(0, order());
        } else {
            assert(i * s == s) by (nonlinear_arith)
                requires
                    i == 1,
            ;
            assert(i * beta == beta) by (nonlinear_arith)
                requires
                    i == 1,
            ;
            assert(i * cx == cx) by (nonlinear_arith)
                requires
                    i == 1,
            ;
            lemma_small_mod(beta, order());
            // s == cx - z, z == cx + beta (mod q)
            lemma_cong_sub(cx as int, cx as int, z as int, (cx + beta) as int);
            lemma_cong_trans(s as int, cx - z, cx - (cx + beta));
            lemma_cong_add(s as int, -(beta as int), beta as int, beta as int);
        }
    }
    lemma_commit_cong(h, i * s + sc_mul(i, beta), alpha * s + delta, 0, v);
}

/// The zero ciphertext encrypts zero with the coin zero, under every key.
pub proof fn lemma_encrypt_zero(pk: nat)
    ensures
        ct_encrypt(pk, 0, 0) == ct_zero(),
{
    lemma_generator_is_member();
    crate::modarith::lemma_pow_mod_small_exponents(pk, modulus());
    assert(crate::modarith::mul_mod(1, 1, modulus()) == 1) by {
        lemma_small_mod(1, modulus());
    }
}

/// An encryption depends on its message and its coin modulo the group order
/// only.
pub proof fn lemma_encrypt_cong(pk: nat, m1: nat, r1: nat, m2: nat, r2: nat)
    requires
        is_member(pk),
        cong(m1 as int, m2 as int),
        cong(r1 as int, r2 as int),
    ensures
        ct_encrypt(pk, m1, r1) == ct_encrypt(pk, m2, r2),
{
    lemma_generator_is_member();
    lemma_scale_reduces(pk, r1);
    lemma_scale_reduces(pk, r2);
    lemma_scale_reduces(generator_value(), r1);
    lemma_scale_reduces(generator_value(), r2);
    lemma_scale_reduces(generator_value(), m1);
    lemma_scale_reduces(generator_value(), m2);
}

/// The message that the contributions of the first `upto` entries encrypt
/// together: for entry `j`, one or zero times the power of the challenge,
/// less the product of its selectors, all times `cy^j`.
pub open spec fn slots_message(
    ith: nat,
    zwvs: Seq<(nat, nat, nat)>,
    cx: nat,
    cy: nat,
    upto: nat,
) -> nat
    decreases upto,
{
    if upto == 0 {
        0
    } else {
        let j = (upto - 1) as nat;
        slots_message(ith, zwvs, cx, cy, j) + (unit_entry(ith, j) * sc_pow(cx, zwvs.len())
            + sc_neg(selector_product(zwvs, cx, j, zwvs.len()))) * sc_pow(cy, j)
    }
}

/// The coin of the contributions of the first `upto` entries together.
pub open spec fn slots_coin(pcoins: Seq<nat>, levels: nat, cx: nat, cy: nat, upto: nat) -> nat
    decreases upto,
{
    if upto == 0 {
        0
    } else {
        let j = (upto - 1) as nat;
        slots_coin(pcoins, levels, cx, cy, j) + (pcoins[j as int] * sc_pow(cx, levels) + 0)
            * sc_pow(cy, j)
    }
}

/// The contributions of the entries of an honest ballot add up to an
/// encryption of the slots' message with the slots' coin.
pub proof fn lemma_slots_sum_is_encryption(
    pk: nat,
    ith: nat,
    pcoins: Seq<nat>,
    padded: Seq<(nat, nat)>,
    zwvs: Seq<(nat, nat, nat)>,
    cx: nat,
    cy: nat,
    upto: nat,
)
    requires
        is_member(pk),
        upto <= padded.len(),
        padded.len() == pcoins.len(),
        forall|j: int|
            0 <= j < padded.len() ==> #[trigger] padded[j] == ct_encrypt(
                pk,
                unit_entry(ith, j as nat),
                pcoins[j],
            ),
    ensures
        slots_sum(pk, padded, zwvs, cx, cy, upto) == ct_encrypt(
            pk,
            slots_message(ith, zwvs, cx, cy, upto),
            slots_coin(pcoins, zwvs.len(), cx, cy, upto),
        ),
    decreases upto,
{
    if upto == 0 {
        lemma_encrypt_zero(pk);
    } else {
        let j = (upto - 1) as nat;
        lemma_slots_sum_is_encryption(pk, ith, pcoins, padded, zwvs, cx, cy, j);
        let x = sc_pow(cx, zwvs.len());
        let y = sc_pow(cy, j);
        let d = unit_entry(ith, j);
        let r = pcoins[j as int];
        let n = sc_neg(selector_product(zwvs, cx, j, zwvs.len()));
        assert(padded[j as int] == ct_encrypt(pk, d, r));
        lemma_encrypt_scales(pk, d, r, x);
        lemma_encrypt_adds(pk, d * x, r * x, n, 0);
        lemma_encrypt_scales(pk, d * x + n, r * x + 0, y);
        lemma_encrypt_adds(
            pk,
            slots_message(ith, zwvs, cx, cy, j),
            slots_coin(pcoins, zwvs.len(), cx, cy, j),
            (d * x + n) * y,
            (r * x + 0) * y,
        );
    }
}

/// The message that the first `upto` ciphertexts of the second message
/// encrypt together, the `k`-th taken `cx^k` times; the messages are summed
/// over the first `slots` entries.
pub open spec fn ds_message(
    ith: nat,
    coins: Seq<nat>,
    bits: nat,
    cy: nat,
    cx: nat,
    slots: nat,
    upto: nat,
) -> nat
    decreases upto,
{
    if upto == 0 {
        0
    } else {
        let k = (upto - 1) as nat;
        ds_message(ith, coins, bits, cy, cx, slots, k) + d_message(
            ith,
            coins,
            bits,
            cy,
            k as int,
            slots,
        ) * sc_pow(cx, k)
    }
}

/// The coin of the first `upto` ciphertexts of the second message
/// together.
pub open spec fn ds_coin(coins: Seq<nat>, cx: nat, upto: nat) -> nat
    decreases upto,
{
    if upto == 0 {
        0
    } else {
        let k = (upto - 1) as nat;
        ds_coin(coins, cx, k) + coins[(5 * k + 4) as int] * sc_pow(cx, k)
    }
}

/// The ciphertexts of the prover's second message add up to an encryption
/// of their message with their coin.
pub proof fn lemma_ds_sum_is_encryption(
    pk: nat,
    ith: nat,
    coins: Seq<nat>,
    bits: nat,
    cy: nat,
    cx: nat,
    upto: nat,
)
    requires
        is_member(pk),
        upto <= bits,
    ensures
        ds_sum(prove_ds(pk, ith, coins, bits, cy), cx, upto) == ct_encrypt(
            pk,
            ds_message(ith, coins, bits, cy, cx, two_pow(bits), upto),
            ds_coin(coins, cx, upto),
        ),
    decreases upto,
{
    if upto == 0 {
        lemma_encrypt_zero(pk);
    } else {
        let k = (upto - 1) as nat;
        lemma_ds_sum_is_encryption(pk, ith, coins, bits, cy, cx, k);
        let ds = prove_ds(pk, ith, coins, bits, cy);
        let m = d_message(ith, coins, bits, cy, k as int, two_pow(bits));
        let r = coins[(5 * k + 4) as int];
        assert(ds[k as int] == ct_encrypt(pk, m, r));
        lemma_encrypt_scales(pk, m, r, sc_pow(cx, k));
        lemma_encrypt_adds(
            pk,
            ds_message(ith, coins, bits, cy, cx, two_pow(bits), k),
            ds_coin(coins, cx, k),
            m * sc_pow(cx, k),
            r * sc_pow(cx, k),
        );
    }
}

/// The prover's sum over the coins of the ballot is congruent to the coin
/// of the slots.
pub proof fn lemma_coin_sum_cong(pcoins: Seq<nat>, levels: nat, cx: nat, cy: nat, upto: nat)
    ensures
        cong(
            coin_sum(pcoins, sc_pow(cx, levels), cy, upto) as int,
            slots_coin(pcoins, levels, cx, cy, upto) as int,
        ),
    decreases upto,
{
    if upto > 0 {
        let j = (upto - 1) as nat;
        lemma_coin_sum_cong(pcoins, levels, cx, cy, j);
        let x = sc_pow(cx, levels);
        let y = sc_pow(cy, j);
        let r = pcoins[j as int];
        lemma_sc_mul(r, x);
        lemma_sc_mul(sc_mul(r, x), y);
        lemma_cong_mul(sc_mul(r, x) as int, (r * x) as int, y as int, y as int);
        lemma_sc_add(coin_sum(pcoins, x, cy, j), sc_mul(sc_mul(r, x), y));
        lemma_cong_add(
            coin_sum(pcoins, x, cy, j) as int,
            slots_coin(pcoins, levels, cx, cy, j) as int,
            sc_mul(sc_mul(r, x), y) as int,
            ((r * x) * y) as int,
        );
    }
}

/// The prover's sum over the coins of the second message is congruent to
/// the coin of the second message.
pub proof fn lemma_rho_sum_cong(coins: Seq<nat>, cx: nat, upto: nat)
    ensures
        cong(rho_sum(coins, cx, upto) as int, ds_coin(coins, cx, upto) as int),
    decreases upto,
{
    if upto > 0 {
        let k = (upto - 1) as nat;
        lemma_rho_sum_cong(coins, cx, k);
        let r = coins[(5 * k + 4) as int];
        let x = sc_pow(cx, k);
        lemma_sc_mul(r, x);
        lemma_sc_add(rho_sum(coins, cx, k), sc_mul(r, x));
        lemma_cong_add(
            rho_sum(coins, cx, k) as int,
            ds_coin(coins, cx, k) as int,
            sc_mul(r, x) as int,
            (r * x) as int,
        );
    }
}

/// The value of the first `n` terms of a polynomial at `x`: coefficient `k`
/// times `x^k`, summed.
pub open spec fn eval_upto(p: Seq<nat>, x: nat, n: nat) -> int
    decreases n,
{
    if n == 0 {
        0
    } else {
        eval_upto(p, x, (n - 1) as nat) + p[n - 1] * sc_pow(x, (n - 1) as nat)
    }
}

/// The value of the first `n - 1` terms, or zero where there is none.
pub open spec fn eval_before(p: Seq<nat>, x: nat, n: nat) -> int {
    if n == 0 {
        0
    } else {
        eval_upto(p, x, (n - 1) as nat)
    }
}

/// The first `n` terms of a polynomial times a linear factor: they are
/// congruent to `b` times the first `n` terms of the polynomial, plus `a x`
/// times the terms before.
proof fn lemma_mul_linear_partial(p: Seq<nat>, a: nat, b: nat, x: nat, n: nat)
    requires
        n <= p.len(),
    ensures
        cong(
            eval_upto(poly_mul_linear(p, a, b), x, n),
            b * eval_upto(p, x, n) + (a * x) * eval_before(p, x, n),
        ),
    decreases n,
{
    let q = poly_mul_linear(p, a, b);
    if n == 0 {
        assert(b * eval_upto(p, x, 0) + (a * x) * eval_before(p, x, 0) == 0) by (nonlinear_arith)
            requires
                eval_upto(p, x, 0) == 0,
                eval_before(p, x, 0) == 0,
        ;
    } else {
        let k = (n - 1) as nat;
        lemma_mul_linear_partial(p, a, b, x, k);
        let xk = sc_pow(x, k) as int;
        let pk = p[k as int] as int;
        let ek = eval_upto(p, x, k);
        let fk = eval_before(p, x, k);
        let ai = a as int;
        let bi = b as int;
        let xi = x as int;
        // the coefficient
        lemma_sc_mul(b, p[k as int]);
        if k == 0 {
            lemma_sc_add(sc_mul(b, p[k as int]), 0);
            lemma_cong_trans(q[k as int] as int, sc_mul(b, p[k as int]) as int + 0, bi * pk);
            lemma_cong_mul(q[k as int] as int, bi * pk, xk, xk);
            lemma_cong_add(
                eval_upto(q, x, k),
                bi * ek + (ai * xi) * fk,
                q[k as int] * xk,
                (bi * pk) * xk,
            );
            assert(bi * ek + (ai * xi) * fk + (bi * pk) * xk == bi * (ek + pk * xk) + (ai * xi)
                * ek) by (nonlinear_arith)
                requires
                    fk == 0,
                    ek == 0,
            ;
        } else {
            let pj = p[k - 1] as int;
            let xj = sc_pow(x, (k - 1) as nat) as int;
            lemma_sc_mul(a, p[k - 1]);
            lemma_sc_add(sc_mul(b, p[k as int]), sc_mul(a, p[k - 1]));
            lemma_cong_add(
                sc_mul(b, p[k as int]) as int,
                bi * pk,
                sc_mul(a, p[k - 1]) as int,
                ai * pj,
            );
            lemma_cong_trans(
                q[k as int] as int,
                sc_mul(b, p[k as int]) as int + sc_mul(a, p[k - 1]) as int,
                bi * pk + ai * pj,
            );
            // x^k == x * x^(k-1)
            lemma_sc_pow_step(x, (k - 1) as nat);
            assert(cong(xk, xi * xj));
            lemma_cong_mul(bi * pk, bi * pk, xk, xk);
            lemma_cong_mul(ai * pj, ai * pj, xk, xi * xj);
            lemma_cong_add((bi * pk) * xk, (bi * pk) * xk, (ai * pj) * xk, (ai * pj) * (xi * xj));
            lemma_cong_mul(q[k as int] as int, bi * pk + ai * pj, xk, xk);
            assert((bi * pk + ai * pj) * xk == (bi * pk) * xk + (ai * pj) * xk)
                by (nonlinear_arith);
            lemma_cong_trans(
                q[k as int] * xk,
                (bi * pk) * xk + (ai * pj) * xk,
                (bi * pk) * xk + (ai * pj) * (xi * xj),
            );
            lemma_cong_add(
                eval_upto(q, x, k),
                bi * ek + (ai * xi) * fk,
                q[k as int] * xk,
                (bi * pk) * xk + (ai * pj) * (xi * xj),
            );
            // regroup: fk + pj * xj == ek
            assert(ek == fk + pj * xj);
            lemma_mul_is_distributive_add(bi, ek, pk * xk);
            lemma_mul_is_associative(bi, pk, xk);
            lemma_mul_is_distributive_add(ai * xi, fk, pj * xj);
            assert((ai * xi) * (pj * xj) == (ai * pj) * (xi * xj)) by (nonlinear_arith);
        }
    }
}

/// The value of a polynomial times a linear factor is congruent to the
/// value of the polynomial times the value of the factor.
pub proof fn lemma_mul_linear_eval(p: Seq<nat>, a: nat, b: nat, x: nat)
    requires
        p.len() >= 1,
    ensures
        cong(
            eval_upto(poly_mul_linear(p, a, b), x, p.len() + 1),
            eval_upto(p, x, p.len()) * (a * x + b),
        ),
{
    let q = poly_mul_linear(p, a, b);
    let n = p.len();
    lemma_mul_linear_partial(p, a, b, x, n);
    let k = (n - 1) as nat;
    let ai = a as int;
    let bi = b as int;
    let xi = x as int;
    let en = eval_upto(p, x, n);
    let fn_ = eval_before(p, x, n);
    let pj = p[k as int] as int;
    let xj = sc_pow(x, k) as int;
    let xn = sc_pow(x, n) as int;
    // the top coefficient: a * p[n - 1]
    lemma_sc_mul(a, p[k as int]);
    lemma_sc_add(0, sc_mul(a, p[k as int]));
    lemma_cong_trans(q[n as int] as int, 0 + sc_mul(a, p[k as int]) as int, ai * pj);
    lemma_sc_pow_step(x, k);
    lemma_cong_mul(q[n as int] as int, ai * pj, xn, xi * xj);
    lemma_cong_add(
        eval_upto(q, x, n),
        bi * en + (ai * xi) * fn_,
        q[n as int] * xn,
        (ai * pj) * (xi * xj),
    );
    assert(en == fn_ + pj * xj);
    assert((ai * pj) * (xi * xj) == (ai * xi) * (pj * xj)) by (nonlinear_arith);
    lemma_mul_is_distributive_add(ai * xi, fn_, pj * xj);
    lemma_mul_is_distributive_add_other_way(en, bi, ai * xi);
    lemma_mul_is_commutative(en, ai * xi + bi);
    assert(bi * en + (ai * xi) * fn_ + (ai * pj) * (xi * xj) == en * (ai * xi + bi));
}

/// The polynomial of an entry has one coefficient more than levels.
pub proof fn lemma_slot_poly_len(ith: nat, coins: Seq<nat>, j: nat, l: nat)
    ensures
        slot_poly(ith, coins, j, l).len() == l + 1,
    decreases l,
{
    if l > 0 {
        lemma_slot_poly_len(ith, coins, j, (l - 1) as nat);
    }
}

/// The selector of a level is congruent to the value of the level's linear
/// factor at the challenge.
pub proof fn lemma_selector_is_factor(ith: nat, coins: Seq<nat>, cx: nat, j: nat, l: int, bits: nat)
    requires
        0 <= l < bits,
        coins.len() == 5 * bits,
        in_scalar_range(coins),
    ensures
        cong(
            selector(Seq::new(bits, |k: int| response(ith, coins, cx, k)), cx, j, l) as int,
            (factor(ith, coins, j, l).0 * cx + factor(ith, coins, j, l).1) as int,
        ),
        selector(Seq::new(bits, |k: int| response(ith, coins, cx, k)), cx, j, l) < order(),
{
    let zwvs = Seq::new(bits, |k: int| response(ith, coins, cx, k));
    let i = bit_scalar(ith, l as nat);
    let beta = coins[5 * l + 1];
    let z = zwvs[l].0;
    assert(z == sc_add(sc_mul(i, cx), beta));
    lemma_sc_mul(i, cx);
    lemma_sc_add(sc_mul(i, cx), beta);
    lemma_cong_add(sc_mul(i, cx) as int, (i * cx) as int, beta as int, beta as int);
    let ii = i as int;
    let ci = cx as int;
    let bi = beta as int;
    lemma_cong_trans(z as int, sc_mul(i, cx) as int + bi, ii * ci + bi);
    if !bit_of(j, l as nat) {
        lemma_sc_sub(cx, z);
        lemma_sc_sub(1, i);
        lemma_sc_neg(beta);
        let a = sc_sub(1, i) as int;
        let b = sc_neg(beta) as int;
        lemma_cong_sub(ci, ci, z as int, ii * ci + bi);
        lemma_cong_trans(sc_sub(cx, z) as int, ci - z, ci - (ii * ci + bi));
        lemma_cong_mul(a, 1 - ii, ci, ci);
        lemma_cong_add(a * ci, (1 - ii) * ci, b, -bi);
        assert((1 - ii) * ci + (-bi) == ci - (ii * ci + bi)) by (nonlinear_arith);
    }
}

/// The product of the selectors of an entry is congruent to the value of
/// the entry's polynomial at the challenge.
pub proof fn lemma_selector_product_is_eval(
    ith: nat,
    coins: Seq<nat>,
    cx: nat,
    j: nat,
    bits: nat,
    upto: nat,
)
    requires
        upto <= bits,
        coins.len() == 5 * bits,
        in_scalar_range(coins),
    ensures
        cong(
            selector_product(
                Seq::new(bits, |k: int| response(ith, coins, cx, k)),
                cx,
                j,
                upto,
            ) as int,
            eval_upto(slot_poly(ith, coins, j, upto), cx, upto + 1),
        ),
        selector_product(Seq::new(bits, |k: int| response(ith, coins, cx, k)), cx, j, upto)
            < order(),
    decreases upto,
{
    let zwvs = Seq::new(bits, |k: int| response(ith, coins, cx, k));
    if upto == 0 {
        lemma_sc_pow_step(cx, 0);
        let one = seq![1nat];
        assert(one[0] == 1);
        assert(eval_upto(one, cx, 0) == 0);
        assert(eval_upto(one, cx, 1) == eval_upto(one, cx, 0) + one[0] * sc_pow(cx, 0));
        assert(one[0] * sc_pow(cx, 0) == 1) by (nonlinear_arith)
            requires
                one[0] == 1,
                sc_pow(cx, 0) == 1,
        ;
    } else {
        let l = (upto - 1) as nat;
        lemma_selector_product_is_eval(ith, coins, cx, j, bits, l);
        lemma_selector_is_factor(ith, coins, cx, j, l as int, bits);
        let p = slot_poly(ith, coins, j, l);
        lemma_slot_poly_len(ith, coins, j, l);
        let f = factor(ith, coins, j, l as int);
        lemma_mul_linear_eval(p, f.0, f.1, cx);
        let sp = selector_product(zwvs, cx, j, l);
        let sel = selector(zwvs, cx, j, l as int);
        lemma_sc_mul(sp, sel);
        let fv = (f.0 * cx + f.1) as int;
        lemma_cong_mul(sp as int, eval_upto(p, cx, l + 1), sel as int, fv);
        lemma_cong_trans(
            selector_product(zwvs, cx, j, upto) as int,
            (sp * sel) as int,
            eval_upto(p, cx, l + 1) * fv,
        );
    }
}

/// Whether two numbers have the same bits below `upto`.
pub open spec fn bits_agree(j: nat, ith: nat, upto: nat) -> bool {
    forall|l: nat| l < upto ==> #[trigger] bit_of(j, l) == bit_of(ith, l)
}

/// Numbers with the same bits below `l` are the same modulo `2^l`.
pub proof fn lemma_low_bits(j: nat, ith: nat, l: nat)
    requires
        bits_agree(j, ith, l),
    ensures
        j % two_pow(l) == ith % two_pow(l),
    decreases l,
{
    if l == 0 {
        assert(two_pow(0) == 1);
    } else {
        let k = (l - 1) as nat;
        assert(bits_agree(j, ith, k));
        lemma_low_bits(j, ith, k);
        crate::unit_vector::lemma_two_pow_positive(k);
        let t = two_pow(k);
        lemma_mod_breakdown(j as int, t as int, 2);
        lemma_mod_breakdown(ith as int, t as int, 2);
        assert(bit_of(j, k) == bit_of(ith, k));
        assert(two_pow(l) == t * 2) by (nonlinear_arith)
            requires
                two_pow(l) == 2 * t,
        ;
        assert((j / t) % 2 == (ith / t) % 2);
    }
}

/// Numbers below `2^m` with the same bits below `m` are the same number.
pub proof fn lemma_bits_determine(j: nat, ith: nat, m: nat)
    requires
        j < two_pow(m),
        ith < two_pow(m),
        bits_agree(j, ith, m),
    ensures
        j == ith,
{
    lemma_low_bits(j, ith, m);
    lemma_small_mod(j, two_pow(m));
    lemma_small_mod(ith, two_pow(m));
}

/// The leading coefficient of the polynomial of an entry over `l` levels is
/// one where the entry agrees with the position of the one in its bits below
/// `l`, else zero.
pub proof fn lemma_leading_coefficient(ith: nat, coins: Seq<nat>, j: nat, l: nat)
    ensures
        slot_poly(ith, coins, j, l).len() == l + 1,
        slot_poly(ith, coins, j, l)[l as int] == (if bits_agree(j, ith, l) {
            1nat
        } else {
            0nat
        }),
    decreases l,
{
    lemma_slot_poly_len(ith, coins, j, l);
    if l > 0 {
        let k = (l - 1) as nat;
        lemma_leading_coefficient(ith, coins, j, k);
        lemma_slot_poly_len(ith, coins, j, k);
        let p = slot_poly(ith, coins, j, k);
        let f = factor(ith, coins, j, k as int);
        let a = f.0;
        let c = p[k as int];
        let same = bit_of(j, k) == bit_of(ith, k);
        assert(a == (if same {
            1nat
        } else {
            0nat
        })) by {
            lemma_small_mod(1, order());
            lemma_small_mod(0, order());
        }
        assert(bits_agree(j, ith, l) == (bits_agree(j, ith, k) && same)) by {
            if bits_agree(j, ith, k) && same {
                assert forall|l2: nat| l2 < l implies #[trigger] bit_of(j, l2) == bit_of(
                    ith,
                    l2,
                ) by {
                    if l2 < k {
                    }
                }
            }
            if bits_agree(j, ith, l) {
                assert(bit_of(j, k) == bit_of(ith, k));
                assert(bits_agree(j, ith, k));
            }
        }
        let top = slot_poly(ith, coins, j, l)[l as int];
        assert(top == sc_add(0, sc_mul(a, c)));
        assert(a * c == (if bits_agree(j, ith, l) {
            1nat
        } else {
            0nat
        })) by (nonlinear_arith)
            requires
                a == 0 || a == 1,
                c == 0 || c == 1,
                (a == 1 && c == 1) == bits_agree(j, ith, l),
        ;
        lemma_small_mod(1, order());
        lemma_small_mod(0, order());
    } else {
        assert(slot_poly(ith, coins, j, 0)[0] == 1);
    }
}

/// The leading coefficient of the polynomial of entry `j` is the entry of
/// the unit vector: one at the position of the one, zero elsewhere.
pub proof fn lemma_leading_is_unit_entry(ith: nat, coins: Seq<nat>, j: nat, bits: nat)
    requires
        j < two_pow(bits),
        ith < two_pow(bits),
    ensures
        slot_poly(ith, coins, j, bits)[bits as int] == unit_entry(ith, j),
{
    lemma_leading_coefficient(ith, coins, j, bits);
    if bits_agree(j, ith, bits) {
        lemma_bits_determine(j, ith, bits);
    }
}

/// Summed over no entry, the message of the second message is zero.
pub proof fn lemma_ds_message_of_nothing(
    ith: nat,
    coins: Seq<nat>,
    bits: nat,
    cy: nat,
    cx: nat,
    upto: nat,
)
    ensures
        ds_message(ith, coins, bits, cy, cx, 0, upto) == 0,
    decreases upto,
{
    if upto > 0 {
        let k = (upto - 1) as nat;
        lemma_ds_message_of_nothing(ith, coins, bits, cy, cx, k);
        assert(d_message(ith, coins, bits, cy, k as int, 0) == 0);
        lemma_mul_basics(sc_pow(cx, k) as int);
    }
}

/// One entry more adds to the message of the second message the value of
/// the first terms of the entry's polynomial, times `cy^j`.
pub proof fn lemma_ds_message_step(
    ith: nat,
    coins: Seq<nat>,
    bits: nat,
    cy: nat,
    cx: nat,
    slots: nat,
    upto: nat,
)
    requires
        slots >= 1,
        upto <= bits,
    ensures
        cong(
            ds_message(ith, coins, bits, cy, cx, slots, upto) as int,
            ds_message(ith, coins, bits, cy, cx, (slots - 1) as nat, upto) + sc_pow(
                cy,
                (slots - 1) as nat,
            ) * eval_upto(slot_poly(ith, coins, (slots - 1) as nat, bits), cx, upto),
        ),
    decreases upto,
{
    let j = (slots - 1) as nat;
    let p = slot_poly(ith, coins, j, bits);
    let y = sc_pow(cy, j) as int;
    if upto == 0 {
        lemma_mul_basics(y);
    } else {
        let k = (upto - 1) as nat;
        lemma_ds_message_step(ith, coins, bits, cy, cx, slots, k);
        lemma_slot_poly_len(ith, coins, j, bits);
        let xk = sc_pow(cx, k) as int;
        let pk = p[k as int] as int;
        let d_old = d_message(ith, coins, bits, cy, k as int, j) as int;
        let d_new = d_message(ith, coins, bits, cy, k as int, slots) as int;
        lemma_sc_mul(sc_pow(cy, j), p[k as int]);
        lemma_sc_add(d_old as nat, sc_mul(sc_pow(cy, j), p[k as int]));
        lemma_cong_add(d_old, d_old, sc_mul(sc_pow(cy, j), p[k as int]) as int, y * pk);
        lemma_cong_trans(d_new, d_old + sc_mul(sc_pow(cy, j), p[k as int]), d_old + y * pk);
        lemma_cong_mul(d_new, d_old + y * pk, xk, xk);
        let m_old = ds_message(ith, coins, bits, cy, cx, j, k) as int;
        let m_new = ds_message(ith, coins, bits, cy, cx, slots, k) as int;
        let e = eval_upto(p, cx, k);
        lemma_cong_add(m_new, m_old + y * e, d_new * xk, (d_old + y * pk) * xk);
        lemma_mul_is_distributive_add_other_way(xk, d_old, y * pk);
        lemma_mul_is_associative(y, pk, xk);
        lemma_mul_is_distributive_add(y, e, pk * xk);
        assert(m_old + y * e + (d_old + y * pk) * xk == (m_old + d_old * xk) + y * (e + pk * xk));
    }
}

/// The messages cancel: what the contributions of the entries encrypt, and
/// what the second message encrypts, add up to zero modulo the group order.
pub proof fn lemma_messages_cancel(
    ith: nat,
    coins: Seq<nat>,
    bits: nat,
    cx: nat,
    cy: nat,
    upto: nat,
)
    requires
        upto <= two_pow(bits),
        ith < two_pow(bits),
        coins.len() == 5 * bits,
        in_scalar_range(coins),
    ensures
        cong(
            (slots_message(
                ith,
                Seq::new(bits, |k: int| response(ith, coins, cx, k)),
                cx,
                cy,
                upto,
            ) + ds_message(ith, coins, bits, cy, cx, upto, bits)) as int,
            0,
        ),
    decreases upto,
{
    let zwvs = Seq::new(bits, |k: int| response(ith, coins, cx, k));
    if upto == 0 {
        lemma_ds_message_of_nothing(ith, coins, bits, cy, cx, bits);
    } else {
        let j = (upto - 1) as nat;
        lemma_messages_cancel(ith, coins, bits, cx, cy, j);
        let a = slots_message(ith, zwvs, cx, cy, j) as int;
        let b = ds_message(ith, coins, bits, cy, cx, j, bits) as int;
        let b2 = ds_message(ith, coins, bits, cy, cx, upto, bits) as int;
        let d = unit_entry(ith, j) as int;
        let x = sc_pow(cx, bits) as int;
        let y = sc_pow(cy, j) as int;
        let p = slot_poly(ith, coins, j, bits);
        let prod = selector_product(zwvs, cx, j, bits);
        let n = sc_neg(prod) as int;
        let t = eval_upto(p, cx, bits);
        lemma_ds_message_step(ith, coins, bits, cy, cx, upto, bits);
        lemma_selector_product_is_eval(ith, coins, cx, j, bits, bits);
        lemma_leading_is_unit_entry(ith, coins, j, bits);
        lemma_sc_neg(prod);
        // the product of the selectors is t + d * x
        assert(eval_upto(p, cx, bits + 1) == t + d * x);
        lemma_cong_sub(0, 0, prod as int, t + d * x);
        lemma_cong_trans(n, -(prod as int), -(t + d * x));
        // d * x + n + t == 0
        lemma_cong_add(d * x + t, d * x + t, n, -(t + d * x));
        assert(cong(d * x + n + t, 0));
        lemma_cong_mul(y, y, d * x + n + t, 0);
        lemma_mul_basics(y);
        assert(y * (d * x + n + t) == (d * x + n) * y + y * t) by (nonlinear_arith);
        // put together
        lemma_cong_add(a + b, 0, (d * x + n) * y + y * t, 0);
        lemma_cong_add(a + (d * x + n) * y, a + (d * x + n) * y, b2, b + y * t);
        assert(zwvs.len() == bits);
        assert(slots_message(ith, zwvs, cx, cy, upto) == a + (d * x + n) * y);
    }
}

/// What the prover makes for an honest ballot, the verifier accepts.
pub proof fn lemma_honest_proof_verifies(h: nat, pk: nat, ev: EncryptingVoteView, coins: Seq<nat>)
    requires
        is_member(h),
        is_member(pk),
        is_encryption_of(ev, pk),
        ev.vote.size <= MAX_OPTIONS,
        coins.len() == coins_needed(bits_for(ev.vote.size)),
        in_scalar_range(coins),
    ensures
        verify_spec(h, pk, ev.ciphertexts, prove_spec(h, pk, ev, coins)),
{
    let n = ev.vote.size;
    let ith = ev.vote.ith;
    let bits = bits_for(n);
    let total = two_pow(bits);
    crate::unit_vector::lemma_bits_for_covers(n);
    let proof = prove_spec(h, pk, ev, coins);
    let padded = pad_ciphertexts(ev.ciphertexts, total);
    let pcoins = pad_coins(ev.coins, total);
    let first = first_digest(h, pk, padded, proof.ibas);
    let cy = challenge_scalar(first);
    let cx = challenge_scalar(second_digest(first, proof.ds));
    let zwvs = Seq::new(bits, |k: int| response(ith, coins, cx, k));
    assert(proof.zwvs =~= zwvs);
    assert(proof.ibas == prove_announcements(h, ith, coins, bits));
    assert(proof.ds == prove_ds(pk, ith, coins, bits, cy));
    // every level holds
    assert forall|l: int| 0 <= l < proof.ibas.len() implies level_holds(
        h,
        cx,
        proof.ibas[l],
        proof.zwvs[l],
    ) by {
        lemma_level_holds(h, ith, coins, cx, l);
    }
    // the padded ballot is an encryption of the padded unit vector
    lemma_encrypt_zero(pk);
    assert forall|j: int| 0 <= j < padded.len() implies #[trigger] padded[j] == ct_encrypt(
        pk,
        unit_entry(ith, j as nat),
        pcoins[j],
    ) by {
        if j < n {
            assert(ev.ciphertexts[j] == ct_encrypt(pk, unit_entry(ith, j as nat), ev.coins[j]));
        }
    }
    lemma_slots_sum_is_encryption(pk, ith, pcoins, padded, zwvs, cx, cy, total);
    lemma_ds_sum_is_encryption(pk, ith, coins, bits, cy, cx, bits);
    let sm = slots_message(ith, zwvs, cx, cy, total);
    let sc = slots_coin(pcoins, bits, cx, cy, total);
    let dm = ds_message(ith, coins, bits, cy, cx, total, bits);
    let dc = ds_coin(coins, cx, bits);
    lemma_encrypt_adds(pk, sm, sc, dm, dc);
    lemma_messages_cancel(ith, coins, bits, cx, cy, total);
    lemma_coin_sum_cong(pcoins, bits, cx, cy, total);
    lemma_rho_sum_cong(coins, cx, bits);
    let r1 = coin_sum(pcoins, sc_pow(cx, bits), cy, total);
    let r2 = rho_sum(coins, cx, bits);
    lemma_sc_add(r1, r2);
    lemma_cong_add(r1 as int, sc as int, r2 as int, dc as int);
    lemma_cong_trans(proof.r as int, (r1 + r2) as int, (sc + dc) as int);
    lemma_encrypt_cong(pk, sm + dm, sc + dc, 0, proof.r);
}

/// An honest ballot verifies: where the ciphertexts are the encryption of a
/// vote and the proof is the prover's for them, the verifier accepts.
pub proof fn lemma_honest_ballot_verifies(
    h: nat,
    pk: nat,
    vote: crate::unit_vector::UnitVectorView,
    ciphertexts: Seq<(nat, nat)>,
    proof: ProofView,
)
    requires
        is_member(h),
        is_member(pk),
        vote.size <= MAX_OPTIONS,
        crate::ballot::is_honest_ballot(h, pk, vote, ciphertexts, proof),
    ensures
        verify_spec(h, pk, ciphertexts, proof),
{
    let ev = choose|ev: EncryptingVoteView| #[trigger]
        is_encryption_of(ev, pk) && ev.vote == vote && ev.ciphertexts == ciphertexts
            && crate::shvzk::is_proof_of(proof, h, pk, ev);
    let coins = choose|coins: Seq<nat>|
        coins.len() == coins_needed(bits_for(ev.vote.size)) && in_scalar_range(coins) && proof
            == #[trigger] prove_spec(h, pk, ev, coins);
    lemma_honest_proof_verifies(h, pk, ev, coins);
}

/// Sums with the same first element are equal only where the second
/// elements are.
pub proof fn lemma_add_cancels(a: nat, x: nat, y: nat)
    requires
        is_member(a),
        is_member(x),
        is_member(y),
        ge_add(a, x) == ge_add(a, y),
    ensures
        x == y,
{
    lemma_neg_cancels(a);
    lemma_add_associates(ge_neg(a), a, x);
    lemma_add_associates(ge_neg(a), a, y);
    lemma_add_zero(x);
    lemma_add_zero(y);
}

/// Different scalars give different multiples of the generator.
pub proof fn lemma_generator_multiples_differ(j: nat, k: nat)
    requires
        j < order(),
        k < order(),
        j != k,
    ensures
        gen_pow(j) != gen_pow(k),
{
    if j < k {
        lemma_counts_are_distinct(j, k);
    } else {
        lemma_counts_are_distinct(k, j);
    }
}

/// Different scalars give different multiples of an element that is not
/// neutral.
pub proof fn lemma_multiples_differ(h: nat, j: nat, k: nat)
    requires
        is_member(h),
        h != ge_zero(),
        j < order(),
        k < order(),
        j != k,
    ensures
        ge_scale(h, j) != ge_scale(h, k),
{
    lemma_prime_order_is_full(h);
    if j < k {
        lemma_powers_distinct(h, modulus(), order(), j, k);
    } else {
        lemma_powers_distinct(h, modulus(), order(), k, j);
    }
}

/// Whether exactly one of the three responses of a level differs.
pub open spec fn one_of_three_differs(x: (nat, nat, nat), y: (nat, nat, nat)) -> bool {
    ||| x.0 != y.0 && x.1 == y.1 && x.2 == y.2
    ||| x.0 == y.0 && x.1 != y.1 && x.2 == y.2
    ||| x.0 == y.0 && x.1 == y.1 && x.2 != y.2
}

/// Whether two proofs have the same announcements and second messages,
/// and differ in a response: in exactly one of the three responses of some
/// level, or in the last response alone.
pub open spec fn response_differs(a: ProofView, b: ProofView) -> bool {
    &&& a.ibas == b.ibas
    &&& a.ds == b.ds
    &&& a.zwvs.len() == b.zwvs.len()
    &&& {
        ||| a.zwvs == b.zwvs && a.r != b.r
        ||| exists|l: int|
            0 <= l < a.zwvs.len() && #[trigger] one_of_three_differs(a.zwvs[l], b.zwvs[l])
    }
}

/// A level holds for one value of each response: with exactly one of its
/// three responses changed it does not hold.
pub proof fn lemma_level_fixes_responses(
    h: nat,
    cx: nat,
    iba: (nat, nat, nat),
    x: (nat, nat, nat),
    y: (nat, nat, nat),
)
    requires
        is_member(h),
        h != ge_zero(),
        x.0 < order() && x.1 < order() && x.2 < order(),
        y.0 < order() && y.1 < order() && y.2 < order(),
        level_holds(h, cx, iba, x),
        one_of_three_differs(x, y),
    ensures
        !level_holds(h, cx, iba, y),
{
    if level_holds(h, cx, iba, y) {
        lemma_scale_is_member(h, x.0);
        lemma_scale_is_member(h, y.0);
        lemma_scale_is_member(h, 0);
        lemma_generator_multiple_is_member(x.1);
        lemma_generator_multiple_is_member(y.1);
        lemma_generator_multiple_is_member(x.2);
        lemma_generator_multiple_is_member(y.2);
        assert(commit(h, x.0, x.1) == commit(h, y.0, y.1));
        if x.0 != y.0 {
            lemma_add_commutes(ge_scale(h, x.0), gen_pow(x.1));
            lemma_add_commutes(ge_scale(h, y.0), gen_pow(y.1));
            lemma_add_cancels(gen_pow(x.1), ge_scale(h, x.0), ge_scale(h, y.0));
            lemma_multiples_differ(h, x.0, y.0);
        } else if x.1 != y.1 {
            lemma_add_cancels(ge_scale(h, x.0), gen_pow(x.1), gen_pow(y.1));
            lemma_generator_multiples_differ(x.1, y.1);
        } else {
            assert(commit(h, 0, x.2) == commit(h, 0, y.2));
            lemma_add_cancels(ge_scale(h, 0), gen_pow(x.2), gen_pow(y.2));
            lemma_generator_multiples_differ(x.2, y.2);
        }
    }
}

/// A changed response is noticed: where a proof is accepted, the proof with
/// exactly one of the three responses of a level changed, or with its last
/// response changed, is refused. The responses are scalars below the group
/// order, as those of every proof that was read from bytes are, and the
/// commitment key is not the neutral element.
pub proof fn lemma_changed_response_is_refused(
    h: nat,
    pk: nat,
    cts: Seq<(nat, nat)>,
    proof: ProofView,
    other: ProofView,
)
    requires
        is_member(h),
        h != ge_zero(),
        verify_spec(h, pk, cts, proof),
        responses_in_range(proof),
        responses_in_range(other),
        response_differs(proof, other),
    ensures
        !verify_spec(h, pk, cts, other),
{
    if verify_spec(h, pk, cts, other) {
        let bits = bits_for(cts.len());
        let padded = pad_ciphertexts(cts, two_pow(bits));
        let first = first_digest(h, pk, padded, proof.ibas);
        let cx = challenge_scalar(second_digest(first, proof.ds));
        if proof.zwvs == other.zwvs && proof.r != other.r {
            assert(ct_encrypt(pk, 0, proof.r) == ct_encrypt(pk, 0, other.r));
            assert(gen_pow(proof.r) == gen_pow(other.r));
            lemma_generator_multiples_differ(proof.r, other.r);
        } else {
            let l = choose|l: int|
                0 <= l < proof.zwvs.len() && #[trigger] one_of_three_differs(
                    proof.zwvs[l],
                    other.zwvs[l],
                );
            assert(levels_hold(h, cx, proof));
            assert(levels_hold(h, cx, other));
            assert(level_holds(h, cx, proof.ibas[l], proof.zwvs[l]));
            assert(level_holds(h, cx, other.ibas[l], other.zwvs[l]));
            lemma_level_fixes_responses(h, cx, proof.ibas[l], proof.zwvs[l], other.zwvs[l]);
        }
    }
}

} // verus!
