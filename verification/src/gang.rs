//! The prime-order group of the protocol and its scalars.
//!
//! The group is the subgroup of squares modulo the safe prime
//! `GROUP_MODULUS`; it has `GROUP_ORDER` elements. It is written additively
//! here: the "sum" of two elements is their product modulo the modulus, and an
//! element "times" a scalar is the element raised to that scalar. A scalar is
//! an integer modulo `GROUP_ORDER`.

use crate::codec::{
    be_bytes, be_value, lemma_be_bytes_of_value, lemma_be_value_of_bytes, read_be_value,
    to_be_bytes,
};
use crate::generator::{gen_pow, generator_value, lemma_generator_order};
use crate::modarith::{
    add_mod, add_mod_u64, lemma_mul_mod_assoc, lemma_mul_mod_bound, lemma_mul_mod_commutes,
    lemma_mul_mod_one, lemma_pow_mod_adds, lemma_pow_mod_bound, lemma_pow_mod_distributes,
    lemma_pow_mod_multiplies, lemma_pow_mod_of_one, lemma_pow_mod_small_exponents, modulus,
    mul_mod, mul_mod_u64, neg_mod, order, pow_mod, pow_mod_u64, GROUP_MODULUS, GROUP_ORDER,
};
use vstd::arithmetic::div_mod::*;
use vstd::arithmetic::mul::*;
use vstd::prelude::*;

verus! {

/// Number of bytes of an encoded group element.
pub const GROUP_ELEMENT_BYTES_LEN: usize = 8;

/// Number of bytes of an encoded scalar.
pub const SCALAR_BYTES_LEN: usize = 8;

/// Whether `x` is an element of the group.
pub open spec fn is_member(x: nat) -> bool {
    x < modulus() && pow_mod(x, order(), modulus()) == 1
}

/// The neutral element.
pub open spec fn ge_zero() -> nat {
    1
}

/// Sum of two elements.
pub open spec fn ge_add(a: nat, b: nat) -> nat {
    mul_mod(a, b, modulus())
}

/// The element `a` taken `k` times.
pub open spec fn ge_scale(a: nat, k: nat) -> nat {
    pow_mod(a, k, modulus())
}

/// Inverse of an element.
pub open spec fn ge_neg(a: nat) -> nat {
    pow_mod(a, (order() - 1) as nat, modulus())
}

/// Difference of two elements.
pub open spec fn ge_sub(a: nat, b: nat) -> nat {
    ge_add(a, ge_neg(b))
}

/// Sum of two scalars.
pub open spec fn sc_add(a: nat, b: nat) -> nat {
    add_mod(a, b, order())
}

/// Product of two scalars.
pub open spec fn sc_mul(a: nat, b: nat) -> nat {
    mul_mod(a, b, order())
}

/// Additive inverse of a scalar.
pub open spec fn sc_neg(a: nat) -> nat {
    neg_mod(a, order())
}

/// Difference of two scalars.
pub open spec fn sc_sub(a: nat, b: nat) -> nat {
    sc_add(a, sc_neg(b))
}

/// The scalar `a` raised to `e`.
pub open spec fn sc_pow(a: nat, e: nat) -> nat {
    pow_mod(a, e, order())
}

/// Sum of a sequence of elements, from the left.
pub open spec fn ge_sum(s: Seq<nat>) -> nat
    decreases s.len(),
{
    if s.len() == 0 {
        ge_zero()
    } else {
        ge_add(ge_sum(s.drop_last()), s.last())
    }
}

/// The neutral element is in the group.
pub proof fn lemma_zero_is_member()
    ensures
        is_member(ge_zero()),
{
    lemma_pow_mod_of_one(order(), modulus());
}

/// The generator is in the group, and so is each of its multiples.
pub proof fn lemma_generator_multiple_is_member(k: nat)
    ensures
        is_member(gen_pow(k)),
{
    lemma_generator_order();
    lemma_pow_mod_bound(generator_value(), k, modulus());
    lemma_pow_mod_multiplies(generator_value(), k, order(), modulus());
    lemma_pow_mod_multiplies(generator_value(), order(), k, modulus());
    lemma_mul_is_commutative(k as int, order() as int);
    lemma_pow_mod_of_one(k, modulus());
}

/// The sum of two elements is an element.
pub proof fn lemma_add_is_member(a: nat, b: nat)
    requires
        is_member(a),
        is_member(b),
    ensures
        is_member(ge_add(a, b)),
{
    lemma_mul_mod_bound(a, b, modulus());
    lemma_pow_mod_distributes(a, b, order(), modulus());
    lemma_mul_mod_one(1, modulus());
}

/// A multiple of an element is an element.
pub proof fn lemma_scale_is_member(a: nat, k: nat)
    requires
        is_member(a),
    ensures
        is_member(ge_scale(a, k)),
{
    lemma_pow_mod_bound(a, k, modulus());
    lemma_pow_mod_multiplies(a, k, order(), modulus());
    lemma_pow_mod_multiplies(a, order(), k, modulus());
    lemma_mul_is_commutative(k as int, order() as int);
    lemma_pow_mod_of_one(k, modulus());
}

/// The inverse of an element is an element, and their sum is neutral.
pub proof fn lemma_neg_cancels(a: nat)
    requires
        is_member(a),
    ensures
        is_member(ge_neg(a)),
        ge_add(a, ge_neg(a)) == ge_zero(),
        ge_add(ge_neg(a), a) == ge_zero(),
{
    lemma_scale_is_member(a, (order() - 1) as nat);
    lemma_pow_mod_adds(a, 1, (order() - 1) as nat, modulus());
    lemma_pow_mod_small_exponents(a, modulus());
    lemma_small_mod(a, modulus());
    lemma_mul_mod_commutes(a, ge_neg(a), modulus());
}

/// Addition of elements is commutative.
pub proof fn lemma_add_commutes(a: nat, b: nat)
    ensures
        ge_add(a, b) == ge_add(b, a),
{
    lemma_mul_mod_commutes(a, b, modulus());
}

/// Addition of elements is associative.
pub proof fn lemma_add_associates(a: nat, b: nat, c: nat)
    ensures
        ge_add(ge_add(a, b), c) == ge_add(a, ge_add(b, c)),
{
    lemma_mul_mod_assoc(a, b, c, modulus());
}

/// The neutral element leaves an element unchanged.
pub proof fn lemma_add_zero(a: nat)
    requires
        a < modulus(),
    ensures
        ge_add(a, ge_zero()) == a,
        ge_add(ge_zero(), a) == a,
{
    lemma_mul_mod_one(a, modulus());
}

/// The multiple of an element depends on the scalar modulo the group order only.
pub proof fn lemma_scale_reduces(a: nat, k: nat)
    requires
        is_member(a),
    ensures
        ge_scale(a, k) == ge_scale(a, k % order()),
{
    let q = order();
    let d = k / q;
    let r = k % q;
    lemma_fundamental_div_mod(k as int, q as int);
    lemma_mul_is_commutative(q as int, d as int);
    assert(k == d * q + r);
    lemma_mul_nonnegative(d as int, q as int);
    lemma_pow_mod_adds(a, d * q, r, modulus());
    lemma_mul_is_commutative(d as int, q as int);
    lemma_pow_mod_multiplies(a, q, d, modulus());
    lemma_pow_mod_of_one(d, modulus());
    lemma_pow_mod_bound(a, r, modulus());
    lemma_mul_mod_one(ge_scale(a, r), modulus());
}

/// Multiples of one element add as their scalars do.
pub proof fn lemma_scale_adds(a: nat, j: nat, k: nat)
    requires
        is_member(a),
    ensures
        ge_add(ge_scale(a, j), ge_scale(a, k)) == ge_scale(a, sc_add(j, k)),
        ge_add(ge_scale(a, j), ge_scale(a, k)) == ge_scale(a, j + k),
{
    lemma_pow_mod_adds(a, j, k, modulus());
    lemma_scale_reduces(a, j + k);
}

/// A multiple of a multiple is the multiple by the product of the scalars.
pub proof fn lemma_scale_multiplies(a: nat, j: nat, k: nat)
    requires
        is_member(a),
    ensures
        ge_scale(ge_scale(a, j), k) == ge_scale(a, sc_mul(j, k)),
        ge_scale(ge_scale(a, j), k) == ge_scale(a, j * k),
{
    lemma_pow_mod_multiplies(a, j, k, modulus());
    lemma_mul_nonnegative(j as int, k as int);
    lemma_scale_reduces(a, j * k);
}

/// A multiple of a sum is the sum of the multiples.
pub proof fn lemma_scale_distributes(a: nat, b: nat, k: nat)
    ensures
        ge_scale(ge_add(a, b), k) == ge_add(ge_scale(a, k), ge_scale(b, k)),
{
    lemma_pow_mod_distributes(a, b, k, modulus());
}

/// The inverse of a multiple is the multiple by the negated scalar.
pub proof fn lemma_scale_neg(a: nat, k: nat)
    requires
        is_member(a),
        k < order(),
    ensures
        ge_neg(ge_scale(a, k)) == ge_scale(a, sc_neg(k)),
{
    let q = order();
    let qm = (q - 1) as nat;
    lemma_pow_mod_multiplies(a, k, qm, modulus());
    lemma_mul_nonnegative(k as int, qm as int);
    lemma_scale_reduces(a, k * qm);
    if k == 0 {
        lemma_mul_basics(qm as int);
        lemma_small_mod(0, q);
    } else {
        // k * (q - 1) == (k - 1) * q + (q - k)
        assert(k * qm == (k - 1) * q + (q - k)) by (nonlinear_arith)
            requires
                qm == q - 1,
        ;
        lemma_mod_multiples_vanish((k - 1) as int, (q - k) as int, q as int);
        lemma_small_mod((q - k) as nat, q);
        assert((k * qm) % q == (q - k) as nat);
    }
}

/// A scalar of the protocol: an integer modulo the group order.
#[derive(Clone, Copy, Debug, PartialEq, Eq, Hash, Structural)]
pub struct Scalar {
    v: u64,
}

impl View for Scalar {
    type V = nat;

    closed spec fn view(&self) -> nat {
        (self.v as nat) % order()
    }
}

impl Scalar {
    #[verifier::type_invariant]
    spec fn inv(self) -> bool {
        self.v < GROUP_ORDER
    }

    /// The value of a scalar is below the group order.
    pub proof fn lemma_in_range(self)
        ensures
            self@ < order(),
    {
        lemma_mod_bound(self.v as int, order() as int);
    }

    proof fn lemma_exact(self)
        requires
            self.inv(),
        ensures
            self@ == self.v as nat,
    {
        lemma_small_mod(self.v as nat, order());
    }

    fn from_word(v: u64) -> (r: Scalar)
        requires
            v < GROUP_ORDER,
        ensures
            r@ == v as nat,
            r.v == v,
    {
        let r = Scalar { v };
        proof {
            r.lemma_exact();
        }
        r
    }

    fn word(&self) -> (v: u64)
        ensures
            v as nat == self@,
            v < GROUP_ORDER,
            v == self.v,
    {
        proof {
            use_type_invariant(self);
            self.lemma_exact();
        }
        self.v
    }

    /// The scalar zero.
    pub fn zero() -> (r: Scalar)
        ensures
            r@ == 0,
    {
        Scalar::from_word(0)
    }

    /// The scalar one.
    pub fn one() -> (r: Scalar)
        ensures
            r@ == 1,
    {
        Scalar::from_word(1)
    }

    /// The scalar that `v` stands for: `v` modulo the group order.
    pub fn from_u64(v: u64) -> (r: Scalar)
        ensures
            r@ == (v as nat) % order(),
    {
        Scalar::from_word(v % GROUP_ORDER)
    }

    /// The scalar that a 128-bit integer stands for.
    pub fn from_u128(v: u128) -> (r: Scalar)
        ensures
            r@ == (v as nat) % order(),
    {
        Scalar::from_word((v % (GROUP_ORDER as u128)) as u64)
    }

    /// The integer below the order that represents this scalar.
    pub fn to_u64(&self) -> (r: u64)
        ensures
            r as nat == self@,
            r < GROUP_ORDER,
    {
        self.word()
    }

    /// Sum of two scalars.
    pub fn add(&self, other: &Scalar) -> (r: Scalar)
        ensures
            r@ == sc_add(self@, other@),
    {
        Scalar::from_word(add_mod_u64(self.word(), other.word(), GROUP_ORDER))
    }

    /// Product of two scalars.
    pub fn mul(&self, other: &Scalar) -> (r: Scalar)
        ensures
            r@ == sc_mul(self@, other@),
    {
        Scalar::from_word(mul_mod_u64(self.word(), other.word(), GROUP_ORDER))
    }

    /// Additive inverse of the scalar.
    pub fn negate(&self) -> (r: Scalar)
        ensures
            r@ == sc_neg(self@),
    {
        let v = self.word();
        if v == 0 {
            Scalar::from_word(0)
        } else {
            Scalar::from_word(GROUP_ORDER - v)
        }
    }

    /// Difference of two scalars.
    pub fn sub(&self, other: &Scalar) -> (r: Scalar)
        ensures
            r@ == sc_sub(self@, other@),
    {
        let n = other.negate();
        self.add(&n)
    }

    /// The scalar raised to `e`.
    pub fn power(&self, e: usize) -> (r: Scalar)
        ensures
            r@ == sc_pow(self@, e as nat),
    {
        Scalar::from_word(pow_mod_u64(self.word(), e as u64, GROUP_ORDER))
    }

    /// Fixed-width big-endian encoding.
    pub fn to_bytes(&self) -> (out: Vec<u8>)
        ensures
            out@ == scalar_bytes(self@),
            out@.len() == SCALAR_BYTES_LEN,
    {
        to_be_bytes(self.word())
    }

    /// Decodes a scalar; `None` unless `bytes` is the encoding of a scalar.
    pub fn from_bytes(bytes: &[u8]) -> (r: Option<Scalar>)
        ensures
            match r {
                Some(s) => scalar_from_bytes(bytes@) == Some(s@),
                None => scalar_from_bytes(bytes@) is None,
            },
    {
        if bytes.len() != 8 {
            return None;
        }
        let v = read_be_value(bytes, 0);
        proof {
            assert(bytes@.subrange(0, 8) =~= bytes@);
        }
        if v >= GROUP_ORDER {
            return None;
        }
        Some(Scalar::from_word(v))
    }
}

/// Encoding of the scalar `k`.
pub open spec fn scalar_bytes(k: nat) -> Seq<u8> {
    be_bytes(k as u64)
}

/// The scalar that `bytes` encodes, if it encodes one.
pub open spec fn scalar_from_bytes(bytes: Seq<u8>) -> Option<nat> {
    if bytes.len() == 8 && (be_value(bytes) as nat) < order() {
        Some(be_value(bytes) as nat)
    } else {
        None
    }
}

/// Encoding of the group element `x`.
pub open spec fn element_bytes(x: nat) -> Seq<u8> {
    be_bytes(x as u64)
}

/// The group element that `bytes` encodes, if it encodes one.
pub open spec fn element_from_bytes(bytes: Seq<u8>) -> Option<nat> {
    if bytes.len() == 8 && is_member(be_value(bytes) as nat) {
        Some(be_value(bytes) as nat)
    } else {
        None
    }
}

/// Decoding the encoding of a scalar gives the scalar back.
pub proof fn lemma_scalar_bytes_round_trip(k: nat)
    requires
        k < order(),
    ensures
        scalar_bytes(k).len() == SCALAR_BYTES_LEN,
        scalar_from_bytes(scalar_bytes(k)) == Some(k),
{
    lemma_be_value_of_bytes(k as u64);
}

/// What decodes to a scalar is the encoding of that scalar.
pub proof fn lemma_scalar_from_bytes_canonical(bytes: Seq<u8>)
    requires
        scalar_from_bytes(bytes) is Some,
    ensures
        scalar_bytes(scalar_from_bytes(bytes).unwrap()) == bytes,
{
    lemma_be_bytes_of_value(bytes);
}

/// Decoding the encoding of a group element gives the element back.
pub proof fn lemma_element_bytes_round_trip(x: nat)
    requires
        is_member(x),
    ensures
        element_bytes(x).len() == GROUP_ELEMENT_BYTES_LEN,
        element_from_bytes(element_bytes(x)) == Some(x),
{
    lemma_be_value_of_bytes(x as u64);
}

/// What decodes to a group element is the encoding of that element.
pub proof fn lemma_element_from_bytes_canonical(bytes: Seq<u8>)
    requires
        element_from_bytes(bytes) is Some,
    ensures
        element_bytes(element_from_bytes(bytes).unwrap()) == bytes,
{
    lemma_be_bytes_of_value(bytes);
}

/// An element of the group.
#[derive(Clone, Copy, Debug, PartialEq, Eq, Hash, Structural)]
pub struct GroupElement {
    v: u64,
}

impl View for GroupElement {
    type V = nat;

    closed spec fn view(&self) -> nat {
        if is_member(self.v as nat) {
            self.v as nat
        } else {
            ge_zero()
        }
    }
}

impl GroupElement {
    #[verifier::type_invariant]
    spec fn inv(self) -> bool {
        is_member(self.v as nat)
    }

    /// The value of an element is a member of the group.
    pub proof fn lemma_is_member(self)
        ensures
            is_member(self@),
    {
        lemma_zero_is_member();
    }

    fn from_word(v: u64) -> (r: GroupElement)
        requires
            is_member(v as nat),
        ensures
            r@ == v as nat,
            r.v == v,
    {
        GroupElement { v }
    }

    fn word(&self) -> (v: u64)
        ensures
            v as nat == self@,
            is_member(v as nat),
            v == self.v,
    {
        proof {
            use_type_invariant(self);
        }
        self.v
    }

    /// The neutral element.
    pub fn zero() -> (r: GroupElement)
        ensures
            r@ == ge_zero(),
    {
        proof {
            lemma_zero_is_member();
        }
        GroupElement::from_word(1)
    }

    /// The fixed generator of the group.
    pub fn generator() -> (r: GroupElement)
        ensures
            r@ == generator_value(),
            r@ == gen_pow(1),
    {
        proof {
            lemma_generator_multiple_is_member(1);
            lemma_pow_mod_small_exponents(generator_value(), modulus());
            lemma_small_mod(4, modulus());
        }
        GroupElement::from_word(4)
    }

    /// Whether two elements are the same element.
    pub fn equals(&self, other: &GroupElement) -> (r: bool)
        ensures
            r == (self@ == other@),
    {
        self.word() == other.word()
    }

    /// Sum of two elements.
    pub fn add(&self, other: &GroupElement) -> (r: GroupElement)
        ensures
            r@ == ge_add(self@, other@),
    {
        let a = self.word();
        let b = other.word();
        proof {
            lemma_add_is_member(a as nat, b as nat);
        }
        GroupElement::from_word(mul_mod_u64(a, b, GROUP_MODULUS))
    }

    /// Inverse of the element.
    pub fn negate(&self) -> (r: GroupElement)
        ensures
            r@ == ge_neg(self@),
    {
        let a = self.word();
        proof {
            lemma_neg_cancels(a as nat);
        }
        GroupElement::from_word(pow_mod_u64(a, GROUP_ORDER - 1, GROUP_MODULUS))
    }

    /// Difference of two elements.
    pub fn sub(&self, other: &GroupElement) -> (r: GroupElement)
        ensures
            r@ == ge_sub(self@, other@),
    {
        let n = other.negate();
        self.add(&n)
    }

    /// The element taken `k` times.
    pub fn scalar_mul(&self, k: &Scalar) -> (r: GroupElement)
        ensures
            r@ == ge_scale(self@, k@),
    {
        let a = self.word();
        let e = k.to_u64();
        proof {
            lemma_scale_is_member(a as nat, e as nat);
        }
        GroupElement::from_word(pow_mod_u64(a, e, GROUP_MODULUS))
    }

    /// Brings the element to its canonical form. Elements are kept canonical,
    /// so nothing changes.
    pub fn normalize(&mut self)
        ensures
            *final(self) == *old(self),
    {
    }

    /// Sum of the elements of `items`, from the left.
    pub fn sum(items: &Vec<GroupElement>) -> (r: GroupElement)
        ensures
            r@ == ge_sum(element_values(items@)),
    {
        let ghost vals = element_values(items@);
        let mut acc = GroupElement::zero();
        let mut i: usize = 0;
        while i < items.len()
            invariant
                i <= items.len(),
                vals == element_values(items@),
                acc@ == ge_sum(vals.subrange(0, i as int)),
            decreases items.len() - i,
        {
            proof {
                let next = vals.subrange(0, i + 1);
                assert(next.drop_last() =~= vals.subrange(0, i as int));
                assert(next.last() == items@[i as int]@);
            }
            acc = acc.add(&items[i]);
            i = i + 1;
        }
        proof {
            assert(vals.subrange(0, items.len() as int) =~= vals);
        }
        acc
    }

    /// The first `size` multiples of the generator: at index `i` stands the
    /// generator taken `i + 1` times.
    pub fn table(size: usize) -> (r: Vec<GroupElement>)
        ensures
            r@.len() == size,
            forall|i: int| 0 <= i < size ==> (#[trigger] r@[i])@ == gen_pow((i + 1) as nat),
    {
        let gen = GroupElement::generator();
        let mut out: Vec<GroupElement> = Vec::new();
        let mut cur = gen;
        let mut i: usize = 0;
        while i < size
            invariant
                i <= size,
                gen@ == generator_value(),
                out@.len() == i,
                cur@ == gen_pow((i + 1) as nat),
                forall|j: int| 0 <= j < i ==> (#[trigger] out@[j])@ == gen_pow((j + 1) as nat),
            decreases size - i,
        {
            out.push(cur);
            proof {
                lemma_pow_mod_adds(generator_value(), (i + 1) as nat, 1, modulus());
                lemma_pow_mod_small_exponents(generator_value(), modulus());
                lemma_small_mod(4, modulus());
            }
            cur = cur.add(&gen);
            i = i + 1;
        }
        out
    }

    /// The element that a digest is mapped to: the square of the digest's
    /// first word modulo the group modulus, or the generator where that
    /// square is no group element.
    pub fn from_digest(d: &[u8]) -> (r: GroupElement)
        ensures
            r@ == {
                let e = (be_value(d@.subrange(0, 8)) as nat) % modulus();
                let c = mul_mod(e, e, modulus());
                if d@.len() >= 8 && is_member(c) {
                    c
                } else {
                    generator_value()
                }
            },
    {
        if d.len() < 8 {
            return GroupElement::generator();
        }
        let e: u64 = read_be_value(d, 0) % GROUP_MODULUS;
        let c: u64 = mul_mod_u64(e, e, GROUP_MODULUS);
        if pow_mod_u64(c, GROUP_ORDER, GROUP_MODULUS) == 1 {
            GroupElement::from_word(c)
        } else {
            GroupElement::generator()
        }
    }

    /// Fixed-width big-endian encoding.
    pub fn to_bytes(&self) -> (out: Vec<u8>)
        ensures
            out@ == element_bytes(self@),
            out@.len() == GROUP_ELEMENT_BYTES_LEN,
    {
        to_be_bytes(self.word())
    }

    /// Decodes an element; `None` unless `bytes` is the encoding of a member
    /// of the group.
    pub fn from_bytes(bytes: &[u8]) -> (r: Option<GroupElement>)
        ensures
            match r {
                Some(e) => element_from_bytes(bytes@) == Some(e@),
                None => element_from_bytes(bytes@) is None,
            },
    {
        if bytes.len() != 8 {
            return None;
        }
        let v = read_be_value(bytes, 0);
        proof {
            assert(bytes@.subrange(0, 8) =~= bytes@);
        }
        if v >= GROUP_MODULUS || pow_mod_u64(v, GROUP_ORDER, GROUP_MODULUS) != 1 {
            return None;
        }
        Some(GroupElement::from_word(v))
    }
}

/// The values of a sequence of elements.
pub open spec fn element_values(s: Seq<GroupElement>) -> Seq<nat> {
    s.map_values(|e: GroupElement| e@)
}

/// The values of a sequence of scalars.
pub open spec fn scalar_values(s: Seq<Scalar>) -> Seq<nat> {
    s.map_values(|e: Scalar| e@)
}

} // verus!
