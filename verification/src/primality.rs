//! The group order is prime, and the generator has exactly that order: no
//! smaller multiple of it is neutral.
//!
//! The order less one is `2^8 * 5^16 * 7^6`. Three raised to it is one
//! modulo the order, and three raised to it divided by two, five or seven
//! is not. So the least exponent that takes three to one is the order less
//! one itself, the powers of three run through all residues but zero, each
//! of them has an inverse, and none of them can divide the order.

use crate::generator::{gen_pow, generator_value, lemma_generator_order};
use crate::modarith::{
    lemma_mul_mod_assoc, lemma_mul_mod_commutes, lemma_mul_mod_one, lemma_pow_mod_adds,
    lemma_pow_mod_bound, lemma_pow_mod_multiplies, lemma_pow_mod_of_one,
    lemma_pow_mod_small_exponents, modulus, mul_mod, order, pow_mod,
};
use crate::witness::{
    lemma_witness_fifth, lemma_witness_full, lemma_witness_half, lemma_witness_seventh,
};
use vstd::arithmetic::div_mod::*;
use vstd::arithmetic::mul::*;
use vstd::arithmetic::power::*;
use vstd::prelude::*;
use vstd::relations::injective_on;
use vstd::set_lib::*;

verus! {

/// Whether `n` is a prime number.
pub open spec fn is_prime(n: nat) -> bool {
    n >= 2 && forall|d: nat| 1 < d < n ==> #[trigger] (n % d) != 0
}

/// Whether no power of `b` with an exponent from one to below `bound` is
/// one modulo `m`.
pub open spec fn no_unit_power_below(b: nat, m: nat, bound: nat) -> bool {
    forall|d: nat| 0 < d < bound ==> #[trigger] pow_mod(b, d, m) != 1
}

/// Where some power of `b` is one, there is a least exponent above zero
/// whose power is one.
pub proof fn lemma_least_unit_power(b: nat, m: nat, k: nat) -> (o: nat)
    requires
        m > 1,
        k > 0,
        pow_mod(b, k, m) == 1,
    ensures
        0 < o <= k,
        pow_mod(b, o, m) == 1,
        no_unit_power_below(b, m, o),
    decreases k,
{
    if no_unit_power_below(b, m, k) {
        k
    } else {
        let d = choose|d: nat| 0 < d < k && #[trigger] pow_mod(b, d, m) == 1;
        lemma_least_unit_power(b, m, d)
    }
}

/// The least exponent whose power is one divides every exponent whose power
/// is one.
pub proof fn lemma_order_divides(b: nat, m: nat, o: nat, e: nat)
    requires
        m > 1,
        o > 0,
        pow_mod(b, o, m) == 1,
        no_unit_power_below(b, m, o),
        pow_mod(b, e, m) == 1,
    ensures
        e % o == 0,
{
    let t = e / o;
    let r = e % o;
    lemma_fundamental_div_mod(e as int, o as int);
    lemma_mul_nonnegative(o as int, t as int);
    assert(e == o * t + r);
    lemma_pow_mod_multiplies(b, o, t, m);
    lemma_pow_mod_of_one(t, m);
    lemma_pow_mod_adds(b, o * t, r, m);
    lemma_pow_mod_bound(b, r, m);
    lemma_mul_mod_one(pow_mod(b, r, m), m);
    assert(pow_mod(b, r, m) == 1);
    if r > 0 {
        assert(false);
    }
}

/// A product is divisible by two, five or seven only where a factor is.
pub proof fn lemma_euclid(p: nat, c: nat, k: nat)
    requires
        p == 2 || p == 5 || p == 7,
        (c * k) % p == 0,
        c % p != 0,
    ensures
        k % p == 0,
{
    let r = c % p;
    let s = k % p;
    lemma_mul_mod_noop(c as int, k as int, p as int);
    assert((r * s) % p == 0);
    if r == 1 {
        assert(r * s == s) by (nonlinear_arith)
            requires
                r == 1,
        ;
    } else if r == 2 {
        assert(r * s == 2 * s) by (nonlinear_arith)
            requires
                r == 2,
        ;
    } else if r == 3 {
        assert(r * s == 3 * s) by (nonlinear_arith)
            requires
                r == 3,
        ;
    } else if r == 4 {
        assert(r * s == 4 * s) by (nonlinear_arith)
            requires
                r == 4,
        ;
    } else if r == 5 {
        assert(r * s == 5 * s) by (nonlinear_arith)
            requires
                r == 5,
        ;
    } else {
        assert(r * s == 6 * s) by (nonlinear_arith)
            requires
                r == 6,
        ;
    }
}

/// What divides `p * m` and is not divisible by `p` divides `m`, for `p`
/// two, five or seven.
pub proof fn lemma_gauss(p: nat, c: nat, m: nat)
    requires
        p == 2 || p == 5 || p == 7,
        c > 0,
        (p * m) % c == 0,
        c % p != 0,
    ensures
        m % c == 0,
{
    let k = (p * m) / c;
    lemma_fundamental_div_mod((p * m) as int, c as int);
    assert(p * m == c * k);
    assert((c * k) % p == 0) by {
        lemma_mod_multiples_basic(m as int, p as int);
        lemma_mul_is_commutative(p as int, m as int);
    }
    lemma_euclid(p, c, k);
    let k2 = k / p;
    lemma_fundamental_div_mod(k as int, p as int);
    assert(k == p * k2);
    assert(m == c * k2) by (nonlinear_arith)
        requires
            p * m == c * k,
            k == p * k2,
            p > 0,
    ;
    lemma_mod_multiples_basic(k2 as int, c as int);
    lemma_mul_is_commutative(c as int, k2 as int);
}

/// The product of powers of two, five and seven.
pub open spec fn smooth(e2: nat, e5: nat, e7: nat) -> nat {
    (pow(2, e2) * pow(5, e5) * pow(7, e7)) as nat
}

/// What divides a product of powers of two, five and seven, and is
/// divisible by none of the three, is one.
pub proof fn lemma_smooth_divisor(e2: nat, e5: nat, e7: nat, c: nat)
    requires
        c > 0,
        smooth(e2, e5, e7) % c == 0,
        c % 2 != 0,
        c % 5 != 0,
        c % 7 != 0,
    ensures
        c == 1,
    decreases e2 + e5 + e7,
{
    lemma_pow_positive(2, e2);
    lemma_pow_positive(5, e5);
    lemma_pow_positive(7, e7);
    let a = pow(2, e2);
    let b = pow(5, e5);
    let d = pow(7, e7);
    if e2 > 0 {
        lemma_pow_positive(2, (e2 - 1) as nat);
        let a1 = pow(2, (e2 - 1) as nat);
        assert(a == 2 * a1) by {
            reveal(pow);
        }
        assert(a * b * d == 2 * (a1 * b * d)) by (nonlinear_arith)
            requires
                a == 2 * a1,
        ;
        assert(a1 * b * d > 0) by (nonlinear_arith)
            requires
                a1 > 0,
                b > 0,
                d > 0,
        ;
        lemma_gauss(2, c, smooth((e2 - 1) as nat, e5, e7));
        lemma_smooth_divisor((e2 - 1) as nat, e5, e7, c);
    } else if e5 > 0 {
        lemma_pow_positive(5, (e5 - 1) as nat);
        let b1 = pow(5, (e5 - 1) as nat);
        assert(b == 5 * b1) by {
            reveal(pow);
        }
        assert(a * b * d == 5 * (a * b1 * d)) by (nonlinear_arith)
            requires
                b == 5 * b1,
        ;
        assert(a * b1 * d > 0) by (nonlinear_arith)
            requires
                a > 0,
                b1 > 0,
                d > 0,
        ;
        lemma_gauss(5, c, smooth(e2, (e5 - 1) as nat, e7));
        lemma_smooth_divisor(e2, (e5 - 1) as nat, e7, c);
    } else if e7 > 0 {
        lemma_pow_positive(7, (e7 - 1) as nat);
        let d1 = pow(7, (e7 - 1) as nat);
        assert(d == 7 * d1) by {
            reveal(pow);
        }
        assert(a * b * d == 7 * (a * b * d1)) by (nonlinear_arith)
            requires
                d == 7 * d1,
        ;
        assert(a * b * d1 > 0) by (nonlinear_arith)
            requires
                a > 0,
                b > 0,
                d1 > 0,
        ;
        lemma_gauss(7, c, smooth(e2, e5, (e7 - 1) as nat));
        lemma_smooth_divisor(e2, e5, (e7 - 1) as nat, c);
    } else {
        lemma_pow0(2);
        lemma_pow0(5);
        lemma_pow0(7);
        assert(smooth(0, 0, 0) == 1);
        if c > 1 {
            lemma_small_mod(1, c);
        }
    }
}

/// The order less one is `2^8 * 5^16 * 7^6`.
pub proof fn lemma_order_predecessor_is_smooth()
    ensures
        smooth(8, 16, 6) == order() - 1,
{
    assert(pow(2, 8) == 256) by {
        reveal_with_fuel(pow, 9);
    }
    assert(pow(5, 16) == 152587890625) by {
        reveal_with_fuel(pow, 17);
    }
    assert(pow(7, 6) == 117649) by {
        reveal_with_fuel(pow, 7);
    }
}

/// A power of a power that is one is one.
pub proof fn lemma_multiple_of_order(b: nat, m: nat, o: nat, t: nat)
    requires
        m > 1,
        pow_mod(b, o, m) == 1,
    ensures
        pow_mod(b, o * t, m) == 1,
{
    lemma_pow_mod_multiplies(b, o, t, m);
    lemma_pow_mod_of_one(t, m);
}

/// No power of three with an exponent from one to below the order less one
/// is one modulo the order.
pub proof fn lemma_witness_has_full_order()
    ensures
        no_unit_power_below(3, order(), (order() - 1) as nat),
        pow_mod(3, (order() - 1) as nat, order()) == 1,
{
    let q = order();
    let n = (q - 1) as nat;
    lemma_witness_full();
    if !no_unit_power_below(3, q, n) {
        let d = choose|d: nat| 0 < d < n && #[trigger] pow_mod(3, d, q) == 1;
        let o = lemma_least_unit_power(3, q, d);
        lemma_order_divides(3, q, o, n);
        let c = n / o;
        lemma_fundamental_div_mod(n as int, o as int);
        assert(n == o * c);
        assert(c >= 2) by (nonlinear_arith)
            requires
                n == o * c,
                0 < o < n,
        ;
        assert(n % c == 0) by {
            lemma_mod_multiples_basic(o as int, c as int);
        }
        lemma_order_predecessor_is_smooth();
        if c % 2 != 0 && c % 5 != 0 && c % 7 != 0 {
            lemma_smooth_divisor(8, 16, 6, c);
        } else if c % 2 == 0 {
            let c2 = c / 2;
            assert(n / 2 == o * c2) by (nonlinear_arith)
                requires
                    n == o * c,
                    c == 2 * c2,
            ;
            lemma_multiple_of_order(3, q, o, c2);
            lemma_witness_half();
        } else if c % 5 == 0 {
            let c5 = c / 5;
            assert(n / 5 == o * c5) by (nonlinear_arith)
                requires
                    n == o * c,
                    c == 5 * c5,
            ;
            lemma_multiple_of_order(3, q, o, c5);
            lemma_witness_fifth();
        } else {
            let c7 = c / 7;
            assert(n / 7 == o * c7) by (nonlinear_arith)
                requires
                    n == o * c,
                    c == 7 * c7,
            ;
            lemma_multiple_of_order(3, q, o, c7);
            lemma_witness_seventh();
        }
        assert(false);
    }
}

/// A power of `b` times the power that completes it to a power that is one,
/// is one.
pub proof fn lemma_power_has_inverse(b: nat, m: nat, n: nat, k: nat)
    requires
        m > 1,
        k <= n,
        pow_mod(b, n, m) == 1,
    ensures
        mul_mod(pow_mod(b, k, m), pow_mod(b, (n - k) as nat, m), m) == 1,
{
    lemma_pow_mod_adds(b, k, (n - k) as nat, m);
}

/// The powers of `b` with exponents below its order are pairwise distinct.
pub proof fn lemma_powers_distinct(b: nat, m: nat, n: nat, i: nat, j: nat)
    requires
        m > 1,
        pow_mod(b, n, m) == 1,
        no_unit_power_below(b, m, n),
        i < j < n,
    ensures
        pow_mod(b, i, m) != pow_mod(b, j, m),
{
    let x = pow_mod(b, i, m);
    let y = pow_mod(b, j, m);
    if x == y {
        let d = (j - i) as nat;
        let u = pow_mod(b, (n - i) as nat, m);
        let z = pow_mod(b, d, m);
        lemma_pow_mod_adds(b, i, d, m);
        assert(y == mul_mod(x, z, m));
        lemma_power_has_inverse(b, m, n, i);
        assert(mul_mod(x, u, m) == 1);
        // u * x * z == u * y == u * x == 1, and u * x * z == z
        lemma_mul_mod_commutes(x, u, m);
        lemma_mul_mod_assoc(u, x, z, m);
        lemma_pow_mod_bound(b, d, m);
        lemma_mul_mod_one(z, m);
        assert(z == 1);
        assert(false);
    }
}

/// A number above two is prime where some base has the number less one as
/// its order: then the powers of the base are all the residues but zero,
/// each of them has an inverse, and a divisor of the number has none.
pub proof fn lemma_full_order_means_prime(b: nat, m: nat)
    requires
        m > 2,
        pow_mod(b, (m - 1) as nat, m) == 1,
        no_unit_power_below(b, m, (m - 1) as nat),
    ensures
        is_prime(m),
{
    let n = (m - 1) as nat;
    assert forall|d: nat| 1 < d < m implies #[trigger] (m % d) != 0 by {
        if m % d == 0 {
            let f = |k: int| pow_mod(b, k as nat, m) as int;
            let x = set_int_range(0, n as int);
            let s = x.map(f);
            let r = set_int_range(1, m as int);
            lemma_int_range(0, n as int);
            lemma_int_range(1, m as int);
            assert(injective_on(f, x)) by {
                assert forall|k1: int, k2: int|
                    x.contains(k1) && x.contains(k2) && #[trigger] f(k1) == #[trigger] f(
                        k2,
                    ) implies k1 == k2 by {
                    if k1 < k2 {
                        lemma_powers_distinct(b, m, n, k1 as nat, k2 as nat);
                    } else if k2 < k1 {
                        lemma_powers_distinct(b, m, n, k2 as nat, k1 as nat);
                    }
                }
            }
            lemma_map_size(x, s, f);
            assert(s.subset_of(r)) by {
                assert forall|v: int| s.contains(v) implies r.contains(v) by {
                    let k = choose|k: int| x.contains(k) && v == f(k);
                    lemma_pow_mod_bound(b, k as nat, m);
                    lemma_power_has_inverse(b, m, n, k as nat);
                    if v == 0 {
                        lemma_mul_basics(pow_mod(b, (n - k) as nat, m) as int);
                        lemma_small_mod(0, m);
                    }
                }
            }
            lemma_subset_equality(s, r);
            assert(r.contains(d as int));
            assert(s.contains(d as int));
            let k = choose|k: int| x.contains(k) && d as int == f(k);
            lemma_power_has_inverse(b, m, n, k as nat);
            let u = pow_mod(b, (n - k) as nat, m);
            assert(mul_mod(d, u, m) == 1);
            // d divides m, so d divides (d * u) % m, which is one
            let e = m / d;
            lemma_fundamental_div_mod(m as int, d as int);
            assert(m == d * e);
            let t = (d * u) / m;
            lemma_fundamental_div_mod((d * u) as int, m as int);
            assert(d * u == m * t + 1);
            assert(d * (u - e * t) == 1) by (nonlinear_arith)
                requires
                    d * u == m * t + 1,
                    m == d * e,
            ;
            assert(false) by (nonlinear_arith)
                requires
                    d * (u - e * t) == 1,
                    d > 1,
            ;
        }
    }
}

/// The group order is prime.
pub proof fn lemma_order_is_prime()
    ensures
        is_prime(order()),
{
    lemma_witness_has_full_order();
    lemma_full_order_means_prime(3, order());
}

/// A number that is not one and whose power with the group order as
/// exponent is one has the group order as its order: the group order is
/// prime.
pub proof fn lemma_prime_order_is_full(h: nat)
    requires
        h < modulus(),
        h != 1,
        pow_mod(h, order(), modulus()) == 1,
    ensures
        no_unit_power_below(h, modulus(), order()),
{
    lemma_order_is_prime();
    assert forall|d: nat| 0 < d < order() implies #[trigger] pow_mod(h, d, modulus()) != 1 by {
        if pow_mod(h, d, modulus()) == 1 {
            let o = lemma_least_unit_power(h, modulus(), d);
            lemma_order_divides(h, modulus(), o, order());
            if o == 1 {
                lemma_pow_mod_small_exponents(h, modulus());
                lemma_small_mod(h, modulus());
            } else {
                assert(order() % o != 0);
            }
            assert(false);
        }
    }
}

/// No multiple of the generator from the first to below the group order is
/// neutral: the generator has exactly the group order.
pub proof fn lemma_generator_has_full_order()
    ensures
        forall|d: nat| 0 < d < order() ==> #[trigger] gen_pow(d) != 1,
{
    lemma_order_is_prime();
    lemma_generator_order();
    assert forall|d: nat| 0 < d < order() implies #[trigger] gen_pow(d) != 1 by {
        if gen_pow(d) == 1 {
            let o = lemma_least_unit_power(generator_value(), modulus(), d);
            lemma_order_divides(generator_value(), modulus(), o, order());
            if o == 1 {
                lemma_pow_mod_small_exponents(generator_value(), modulus());
                lemma_small_mod(4, modulus());
            } else {
                assert(order() % o != 0);
            }
            assert(false);
        }
    }
}

} // verus!
