//! Arithmetic modulo the two constants of the group: the modulus `P`, a safe
//! prime, and the order `Q = (P - 1) / 2` of the subgroup of squares.

use vstd::arithmetic::div_mod::*;
use vstd::arithmetic::mul::*;
use vstd::arithmetic::power::*;
use vstd::prelude::*;

verus! {

/// Modulus of the group, a safe prime.
pub const GROUP_MODULUS: u64 = 9191328125000000003;

/// Order of the subgroup of squares modulo `GROUP_MODULUS`.
pub const GROUP_ORDER: u64 = 4595664062500000001;

/// The modulus as a mathematical integer.
pub open spec fn modulus() -> nat {
    GROUP_MODULUS as nat
}

/// The subgroup order as a mathematical integer.
pub open spec fn order() -> nat {
    GROUP_ORDER as nat
}

/// Product of `a` and `b` modulo `m`.
pub open spec fn mul_mod(a: nat, b: nat, m: nat) -> nat {
    (a * b) % m
}

/// Sum of `a` and `b` modulo `m`.
pub open spec fn add_mod(a: nat, b: nat, m: nat) -> nat {
    (a + b) % m
}

/// Additive inverse of `a` modulo `m`, for `a < m`.
pub open spec fn neg_mod(a: nat, m: nat) -> nat {
    if a == 0 {
        0
    } else {
        (m - a) as nat
    }
}

/// `a` raised to `e`, modulo `m`.
pub open spec fn pow_mod(a: nat, e: nat, m: nat) -> nat {
    (pow(a as int, e) % (m as int)) as nat
}

pub proof fn lemma_pow_nonneg(a: nat, e: nat)
    ensures
        pow(a as int, e) >= 0,
    decreases e,
{
    reveal(pow);
    if e > 0 {
        lemma_pow_nonneg(a, (e - 1) as nat);
        lemma_mul_nonnegative(a as int, pow(a as int, (e - 1) as nat));
    }
}

pub proof fn lemma_mul_mod_bound(a: nat, b: nat, m: nat)
    requires
        m > 0,
    ensures
        mul_mod(a, b, m) < m,
{
    lemma_mul_nonnegative(a as int, b as int);
    lemma_mod_bound((a * b) as int, m as int);
}

pub proof fn lemma_pow_mod_bound(a: nat, e: nat, m: nat)
    requires
        m > 0,
    ensures
        pow_mod(a, e, m) < m,
{
    lemma_pow_nonneg(a, e);
    lemma_mod_bound(pow(a as int, e), m as int);
}

/// Multiplication modulo `m` is commutative.
pub proof fn lemma_mul_mod_commutes(a: nat, b: nat, m: nat)
    ensures
        mul_mod(a, b, m) == mul_mod(b, a, m),
{
    lemma_mul_is_commutative(a as int, b as int);
}

/// Reducing a factor first does not change a product modulo `m`.
pub proof fn lemma_mul_mod_reduce(a: nat, b: nat, m: nat)
    requires
        m > 0,
    ensures
        mul_mod(a % m, b, m) == mul_mod(a, b, m),
        mul_mod(a, b % m, m) == mul_mod(a, b, m),
        mul_mod(a % m, b % m, m) == mul_mod(a, b, m),
{
    lemma_mul_mod_noop_left(a as int, b as int, m as int);
    lemma_mul_mod_noop_right(a as int, b as int, m as int);
    lemma_mul_mod_noop(a as int, b as int, m as int);
    lemma_mod_twice(a as int, m as int);
    lemma_mod_twice(b as int, m as int);
    lemma_mul_mod_noop_general(a as int, b as int, m as int);
}

/// Multiplication modulo `m` is associative.
pub proof fn lemma_mul_mod_assoc(a: nat, b: nat, c: nat, m: nat)
    requires
        m > 0,
    ensures
        mul_mod(mul_mod(a, b, m), c, m) == mul_mod(a, mul_mod(b, c, m), m),
{
    lemma_mul_nonnegative(a as int, b as int);
    lemma_mul_nonnegative(b as int, c as int);
    lemma_mul_mod_reduce(a * b, c, m);
    lemma_mul_mod_reduce(a, b * c, m);
    lemma_mul_is_associative(a as int, b as int, c as int);
}

/// One is neutral for multiplication modulo `m`.
pub proof fn lemma_mul_mod_one(a: nat, m: nat)
    requires
        a < m,
    ensures
        mul_mod(a, 1, m) == a,
        mul_mod(1, a, m) == a,
{
    lemma_small_mod(a, m);
    lemma_mul_basics(a as int);
}

/// A power of a sum of exponents is the product of the powers.
pub proof fn lemma_pow_mod_adds(a: nat, j: nat, k: nat, m: nat)
    requires
        m > 0,
    ensures
        pow_mod(a, j + k, m) == mul_mod(pow_mod(a, j, m), pow_mod(a, k, m), m),
{
    lemma_pow_adds(a as int, j, k);
    lemma_pow_nonneg(a, j);
    lemma_pow_nonneg(a, k);
    lemma_mul_mod_reduce(pow(a as int, j) as nat, pow(a as int, k) as nat, m);
}

/// A power of a power is the power by the product of the exponents.
pub proof fn lemma_pow_mod_multiplies(a: nat, j: nat, k: nat, m: nat)
    requires
        m > 0,
    ensures
        pow_mod(pow_mod(a, j, m), k, m) == pow_mod(a, j * k, m),
{
    lemma_pow_nonneg(a, j);
    lemma_pow_mod_noop(pow(a as int, j), k, m as int);
    lemma_pow_multiplies(a as int, j, k);
}

/// A power of a product is the product of the powers.
pub proof fn lemma_pow_mod_distributes(a: nat, b: nat, k: nat, m: nat)
    requires
        m > 0,
    ensures
        pow_mod(mul_mod(a, b, m), k, m) == mul_mod(pow_mod(a, k, m), pow_mod(b, k, m), m),
{
    lemma_mul_nonnegative(a as int, b as int);
    lemma_pow_mod_noop((a * b) as int, k, m as int);
    lemma_pow_distributes(a as int, b as int, k);
    lemma_pow_nonneg(a, k);
    lemma_pow_nonneg(b, k);
    lemma_mul_mod_reduce(pow(a as int, k) as nat, pow(b as int, k) as nat, m);
}

/// Powers of one are one.
pub proof fn lemma_pow_mod_of_one(k: nat, m: nat)
    requires
        m > 1,
    ensures
        pow_mod(1, k, m) == 1,
{
    lemma1_pow(k);
    lemma_small_mod(1, m);
}

/// The zeroth power is one and the first power is the base.
pub proof fn lemma_pow_mod_small_exponents(a: nat, m: nat)
    requires
        m > 1,
    ensures
        pow_mod(a, 0, m) == 1,
        pow_mod(a, 1, m) == a % m,
{
    lemma_pow0(a as int);
    lemma_pow1(a as int);
    lemma_small_mod(1, m);
}

/// Product modulo `m` of two values that fit in 64 bits.
pub fn mul_mod_u64(a: u64, b: u64, m: u64) -> (r: u64)
    requires
        m > 0,
    ensures
        r as nat == mul_mod(a as nat, b as nat, m as nat),
        r < m,
{
    proof {
        lemma_mul_upper_bound(a as int, u64::MAX as int, b as int, u64::MAX as int);
        lemma_mul_nonnegative(a as int, b as int);
        lemma_mod_bound((a * b) as int, m as int);
    }
    let wide: u128 = (a as u128) * (b as u128);
    (wide % (m as u128)) as u64
}

/// Sum modulo `m` of two values below `m`.
pub fn add_mod_u64(a: u64, b: u64, m: u64) -> (r: u64)
    requires
        a < m,
        b < m,
    ensures
        r as nat == add_mod(a as nat, b as nat, m as nat),
        r < m,
{
    let wide: u128 = (a as u128) + (b as u128);
    proof {
        lemma_mod_bound(wide as int, m as int);
    }
    (wide % (m as u128)) as u64
}

/// From the `k`-th power of `a` to the powers `2k` and `2k + 1`.
pub proof fn lemma_pow_mod_double(a: nat, k: nat, x: nat, m: nat)
    requires
        m > 1,
        pow_mod(a, k, m) == x,
    ensures
        pow_mod(a, 2 * k, m) == mul_mod(x, x, m),
        pow_mod(a, 2 * k + 1, m) == mul_mod(mul_mod(x, x, m), a, m),
{
    lemma_pow_mod_adds(a, k, k, m);
    lemma_pow_mod_adds(a, 2 * k, 1, m);
    lemma_pow_mod_small_exponents(a, m);
    lemma_mul_mod_reduce(mul_mod(x, x, m), a, m);
}

/// Splits a power by the lowest bit of its exponent.
pub proof fn lemma_pow_mod_split(a: nat, e: nat, m: nat)
    requires
        m > 1,
    ensures
        pow_mod(a, e, m) == mul_mod(
            pow_mod(a, e % 2, m),
            pow_mod(mul_mod(a, a, m), e / 2, m),
            m,
        ),
{
    let h = e / 2;
    let b = e % 2;
    assert(e == b + 2 * h);
    lemma_pow_mod_adds(a, b, 2 * h, m);
    lemma_pow_mod_multiplies(a, 2, h, m);
    lemma_square_is_pow2(a as int);
    assert(pow_mod(a, 2, m) == mul_mod(a, a, m));
}

/// `a` raised to `e` modulo `m`, by repeated squaring over all 64 exponent bits.
pub fn pow_mod_u64(a: u64, e: u64, m: u64) -> (r: u64)
    requires
        m > 1,
    ensures
        r as nat == pow_mod(a as nat, e as nat, m as nat),
        r < m,
{
    let mut acc: u64 = 1;
    let mut base: u64 = a % m;
    let mut rest: u64 = e;
    let mut i: u64 = 0;
    proof {
        lemma_pow_mod_bound(a as nat, e as nat, m as nat);
        lemma_mul_mod_one(pow_mod(a as nat, e as nat, m as nat), m as nat);
        lemma_pow_mod_noop(a as int, e as nat, m as int);
        assert(rest <= (u64::MAX >> i)) by (bit_vector)
            requires
                i == 0,
        ;
    }
    while i < 64
        invariant
            m > 1,
            acc < m,
            base < m,
            i <= 64,
            i < 64 ==> rest <= (u64::MAX >> i),
            i == 64 ==> rest == 0,
            pow_mod(a as nat, e as nat, m as nat) == mul_mod(
                acc as nat,
                pow_mod(base as nat, rest as nat, m as nat),
                m as nat,
            ),
        decreases 64 - i,
    {
        let bit: u64 = rest & 1;
        let half: u64 = rest >> 1;
        let factor: u64 = if bit == 1 { base } else { 1 };
        let next_acc: u64 = mul_mod_u64(acc, factor, m);
        let next_base: u64 = mul_mod_u64(base, base, m);
        proof {
            assert(bit == rest % 2 && half == rest / 2) by (bit_vector)
                requires
                    bit == rest & 1,
                    half == rest >> 1,
            ;
            assert(i < 63 ==> half <= (u64::MAX >> ((i + 1) as u64))) by (bit_vector)
                requires
                    i < 64,
                    rest <= (u64::MAX >> i),
                    half == rest >> 1,
            ;
            assert(i == 63 ==> half == 0) by (bit_vector)
                requires
                    i < 64,
                    rest <= (u64::MAX >> i),
                    half == rest >> 1,
            ;
            lemma_pow_mod_split(base as nat, rest as nat, m as nat);
            let sq = pow_mod(next_base as nat, half as nat, m as nat);
            let pf = pow_mod(base as nat, bit as nat, m as nat);
            lemma_pow_mod_small_exponents(base as nat, m as nat);
            lemma_small_mod(base as nat, m as nat);
            assert(pf == factor);
            lemma_mul_mod_assoc(acc as nat, pf, sq, m as nat);
        }
        acc = next_acc;
        base = next_base;
        rest = half;
        i = i + 1;
    }
    proof {
        lemma_pow_mod_small_exponents(base as nat, m as nat);
        lemma_mul_mod_one(acc as nat, m as nat);
    }
    acc
}

} // verus!
