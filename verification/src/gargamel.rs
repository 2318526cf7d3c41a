//! ElGamal encryption over the group: ciphertexts that can be added and
//! scaled without being opened.

use crate::gang::{
    element_bytes, element_from_bytes, ge_add, ge_neg, ge_scale, ge_sub, ge_zero, is_member,
    lemma_add_associates, lemma_add_commutes, lemma_add_is_member, lemma_add_zero,
    lemma_element_bytes_round_trip, lemma_generator_multiple_is_member, lemma_neg_cancels,
    lemma_scale_adds, lemma_scale_distributes, lemma_scale_is_member, lemma_scale_multiplies,
    GroupElement, Scalar, GROUP_ELEMENT_BYTES_LEN,
};
use crate::generator::{gen_pow, generator_value};
use crate::modarith::{modulus};
use vstd::arithmetic::mul::*;
use vstd::prelude::*;
use vstd::slice::slice_subrange;

verus! {

/// Number of bytes of an encoded ciphertext.
pub const CIPHERTEXT_BYTES_LEN: usize = 16;

/// The ciphertext that opens to nothing under every key.
pub open spec fn ct_zero() -> (nat, nat) {
    (ge_zero(), ge_zero())
}

/// Component-wise sum of two ciphertexts.
pub open spec fn ct_add(a: (nat, nat), b: (nat, nat)) -> (nat, nat) {
    (ge_add(a.0, b.0), ge_add(a.1, b.1))
}

/// Both components of a ciphertext taken `k` times.
pub open spec fn ct_scale(a: (nat, nat), k: nat) -> (nat, nat) {
    (ge_scale(a.0, k), ge_scale(a.1, k))
}

/// Encryption of the message `m` under the key `pk` with the coin `r`.
pub open spec fn ct_encrypt(pk: nat, m: nat, r: nat) -> (nat, nat) {
    (gen_pow(r), ge_add(ge_scale(pk, r), gen_pow(m)))
}

/// What the secret `sk` opens a ciphertext to: a group element.
pub open spec fn ct_decrypt(c: (nat, nat), sk: nat) -> nat {
    ge_sub(c.1, ge_scale(c.0, sk))
}

/// Whether both components are group elements.
pub open spec fn ct_is_valid(c: (nat, nat)) -> bool {
    is_member(c.0) && is_member(c.1)
}

/// Encoding of a ciphertext: its two components, one after the other.
pub open spec fn ct_bytes(c: (nat, nat)) -> Seq<u8> {
    element_bytes(c.0) + element_bytes(c.1)
}

/// The ciphertext that `bytes` encodes, if it encodes one.
pub open spec fn ct_from_bytes(bytes: Seq<u8>) -> Option<(nat, nat)> {
    if bytes.len() != 16 {
        None
    } else {
        match (
            element_from_bytes(bytes.subrange(0, 8)),
            element_from_bytes(bytes.subrange(8, 16)),
        ) {
            (Some(a), Some(b)) => Some((a, b)),
            _ => None,
        }
    }
}

/// `(a + b) + (c + d) == (a + c) + (b + d)` in the group.
pub proof fn lemma_add_interchange(a: nat, b: nat, c: nat, d: nat)
    ensures
        ge_add(ge_add(a, b), ge_add(c, d)) == ge_add(ge_add(a, c), ge_add(b, d)),
{
    lemma_add_associates(a, b, ge_add(c, d));
    lemma_add_associates(b, c, d);
    lemma_add_commutes(b, c);
    lemma_add_associates(c, b, d);
    lemma_add_associates(a, c, ge_add(b, d));
}

/// An encryption is a valid ciphertext.
pub proof fn lemma_encrypt_is_valid(pk: nat, m: nat, r: nat)
    requires
        is_member(pk),
    ensures
        ct_is_valid(ct_encrypt(pk, m, r)),
{
    lemma_generator_multiple_is_member(r);
    lemma_generator_multiple_is_member(m);
    lemma_scale_is_member(pk, r);
    lemma_add_is_member(ge_scale(pk, r), gen_pow(m));
}

/// The sum of two encryptions under one key encrypts the sum of the
/// messages, with the sum of the coins.
pub proof fn lemma_encrypt_adds(pk: nat, m1: nat, r1: nat, m2: nat, r2: nat)
    requires
        is_member(pk),
    ensures
        ct_add(ct_encrypt(pk, m1, r1), ct_encrypt(pk, m2, r2)) == ct_encrypt(
            pk,
            m1 + m2,
            r1 + r2,
        ),
{
    lemma_generator_multiple_is_member(1);
    crate::modarith::lemma_pow_mod_small_exponents(generator_value(), modulus());
    assert(is_member(generator_value())) by {
        vstd::arithmetic::div_mod::lemma_small_mod(4, modulus());
    }
    lemma_scale_adds(generator_value(), r1, r2);
    lemma_scale_adds(generator_value(), m1, m2);
    lemma_scale_adds(pk, r1, r2);
    lemma_add_interchange(ge_scale(pk, r1), gen_pow(m1), ge_scale(pk, r2), gen_pow(m2));
}

/// An encryption taken `k` times encrypts the message times `k`, with the
/// coin times `k`.
pub proof fn lemma_encrypt_scales(pk: nat, m: nat, r: nat, k: nat)
    requires
        is_member(pk),
    ensures
        ct_scale(ct_encrypt(pk, m, r), k) == ct_encrypt(pk, m * k, r * k),
{
    assert(is_member(generator_value())) by {
        lemma_generator_multiple_is_member(1);
        crate::modarith::lemma_pow_mod_small_exponents(generator_value(), modulus());
        vstd::arithmetic::div_mod::lemma_small_mod(4, modulus());
    }
    lemma_scale_multiplies(generator_value(), r, k);
    lemma_scale_multiplies(generator_value(), m, k);
    lemma_scale_multiplies(pk, r, k);
    lemma_scale_distributes(ge_scale(pk, r), gen_pow(m), k);
}

/// The secret of a key opens an encryption under that key to the generator
/// taken message times.
pub proof fn lemma_decrypt_encrypt(sk: nat, m: nat, r: nat)
    ensures
        ct_decrypt(ct_encrypt(gen_pow(sk), m, r), sk) == gen_pow(m),
{
    assert(is_member(generator_value())) by {
        lemma_generator_multiple_is_member(1);
        crate::modarith::lemma_pow_mod_small_exponents(generator_value(), modulus());
        vstd::arithmetic::div_mod::lemma_small_mod(4, modulus());
    }
    let g = generator_value();
    lemma_scale_multiplies(g, sk, r);
    lemma_scale_multiplies(g, r, sk);
    lemma_mul_is_commutative(sk as int, r as int);
    let h = ge_scale(gen_pow(sk), r);
    assert(h == ge_scale(gen_pow(r), sk));
    lemma_generator_multiple_is_member(sk);
    lemma_scale_is_member(gen_pow(sk), r);
    lemma_generator_multiple_is_member(m);
    lemma_neg_cancels(h);
    // (h + g^m) - h == g^m
    lemma_add_commutes(h, gen_pow(m));
    lemma_add_associates(gen_pow(m), h, ge_neg(h));
    lemma_add_zero(gen_pow(m));
}

/// Decoding the encoding of a valid ciphertext gives the ciphertext back.
pub proof fn lemma_ct_bytes_round_trip(c: (nat, nat))
    requires
        ct_is_valid(c),
    ensures
        ct_bytes(c).len() == CIPHERTEXT_BYTES_LEN,
        ct_from_bytes(ct_bytes(c)) == Some(c),
{
    lemma_element_bytes_round_trip(c.0);
    lemma_element_bytes_round_trip(c.1);
    assert(ct_bytes(c).subrange(0, 8) =~= element_bytes(c.0));
    assert(ct_bytes(c).subrange(8, 16) =~= element_bytes(c.1));
}

/// A buffer of another length than that of a ciphertext does not decode.
pub proof fn lemma_ct_rejects_other_lengths(bytes: Seq<u8>)
    requires
        bytes.len() != CIPHERTEXT_BYTES_LEN,
    ensures
        ct_from_bytes(bytes) is None,
{
}

/// What decodes to a ciphertext is the encoding of that ciphertext.
pub proof fn lemma_ct_from_bytes_canonical(bytes: Seq<u8>)
    requires
        ct_from_bytes(bytes) is Some,
    ensures
        ct_bytes(ct_from_bytes(bytes).unwrap()) == bytes,
        ct_is_valid(ct_from_bytes(bytes).unwrap()),
{
    crate::gang::lemma_element_from_bytes_canonical(bytes.subrange(0, 8));
    crate::gang::lemma_element_from_bytes_canonical(bytes.subrange(8, 16));
    assert(bytes.subrange(0, 8) + bytes.subrange(8, 16) =~= bytes);
}

/// An ElGamal ciphertext: a pair of group elements.
#[derive(Clone, Copy, Debug, PartialEq, Eq, Hash, Structural)]
pub struct Ciphertext {
    e1: GroupElement,
    e2: GroupElement,
}

impl View for Ciphertext {
    type V = (nat, nat);

    closed spec fn view(&self) -> (nat, nat) {
        (self.e1@, self.e2@)
    }
}

impl Ciphertext {
    /// Both components of a ciphertext are group elements.
    pub proof fn lemma_is_valid(self)
        ensures
            ct_is_valid(self@),
    {
        self.e1.lemma_is_member();
        self.e2.lemma_is_member();
    }

    /// The ciphertext whose two components are neutral.
    pub fn zero() -> (r: Ciphertext)
        ensures
            r@ == ct_zero(),
    {
        Ciphertext { e1: GroupElement::zero(), e2: GroupElement::zero() }
    }

    /// The ciphertext with the given components.
    pub fn from_elements(e1: GroupElement, e2: GroupElement) -> (r: Ciphertext)
        ensures
            r@ == (e1@, e2@),
    {
        Ciphertext { e1, e2 }
    }

    /// The two components.
    pub fn elements(&self) -> (r: (GroupElement, GroupElement))
        ensures
            r.0@ == self@.0,
            r.1@ == self@.1,
    {
        (self.e1, self.e2)
    }

    /// Component-wise sum.
    pub fn add(&self, other: &Ciphertext) -> (r: Ciphertext)
        ensures
            r@ == ct_add(self@, other@),
    {
        Ciphertext { e1: self.e1.add(&other.e1), e2: self.e2.add(&other.e2) }
    }

    /// Both components taken `k` times.
    pub fn scale(&self, k: &Scalar) -> (r: Ciphertext)
        ensures
            r@ == ct_scale(self@, k@),
    {
        Ciphertext { e1: self.e1.scalar_mul(k), e2: self.e2.scalar_mul(k) }
    }

    /// Whether two ciphertexts have the same components.
    pub fn equals(&self, other: &Ciphertext) -> (r: bool)
        ensures
            r == (self@ == other@),
    {
        self.e1.equals(&other.e1) && self.e2.equals(&other.e2)
    }

    /// Opens the ciphertext with a secret: the second component less the
    /// first taken `sk` times. The result is a group element.
    pub fn decrypt_with(&self, sk: &Scalar) -> (r: GroupElement)
        ensures
            r@ == ct_decrypt(self@, sk@),
    {
        let shared = self.e1.scalar_mul(sk);
        self.e2.sub(&shared)
    }

    /// Fixed-width encoding: the first component, then the second.
    pub fn to_bytes(&self) -> (out: Vec<u8>)
        ensures
            out@ == ct_bytes(self@),
            out@.len() == CIPHERTEXT_BYTES_LEN,
    {
        let mut out = self.e1.to_bytes();
        let mut second = self.e2.to_bytes();
        out.append(&mut second);
        out
    }

    /// Decodes a ciphertext; `None` unless `bytes` has the length of a
    /// ciphertext and both halves decode to group elements.
    pub fn from_bytes(bytes: &[u8]) -> (r: Option<Ciphertext>)
        ensures
            match r {
                Some(c) => ct_from_bytes(bytes@) == Some(c@),
                None => ct_from_bytes(bytes@) is None,
            },
    {
        if bytes.len() != CIPHERTEXT_BYTES_LEN {
            return None;
        }
        let first = GroupElement::from_bytes(slice_subrange(bytes, 0, 8));
        let second = GroupElement::from_bytes(slice_subrange(bytes, 8, 16));
        match (first, second) {
            (Some(e1), Some(e2)) => Some(Ciphertext { e1, e2 }),
            _ => None,
        }
    }
}

/// The values of a sequence of ciphertexts.
pub open spec fn ciphertext_values(s: Seq<Ciphertext>) -> Seq<(nat, nat)> {
    s.map_values(|c: Ciphertext| c@)
}

/// Public key of an ElGamal key pair.
#[derive(Clone, Copy, Debug, PartialEq, Eq, Hash, Structural)]
pub struct PublicKey {
    pub pk: GroupElement,
}

/// Secret key of an ElGamal key pair.
#[derive(Clone, Copy, Debug, PartialEq, Eq, Structural)]
pub struct SecretKey {
    pub sk: Scalar,
}

/// A secret key with its public key.
#[derive(Clone, Copy, Debug, PartialEq, Eq, Structural)]
pub struct Keypair {
    pub secret_key: SecretKey,
    pub public_key: PublicKey,
}

impl View for PublicKey {
    type V = nat;

    open spec fn view(&self) -> nat {
        self.pk@
    }
}

impl View for SecretKey {
    type V = nat;

    open spec fn view(&self) -> nat {
        self.sk@
    }
}

impl SecretKey {
    /// The secret key that the scalar `sk` is.
    pub fn from_scalar(sk: Scalar) -> (r: SecretKey)
        ensures
            r@ == sk@,
    {
        SecretKey { sk }
    }

    /// The public key of this secret: the generator taken `sk` times.
    pub fn to_public(&self) -> (r: PublicKey)
        ensures
            r@ == gen_pow(self@),
    {
        PublicKey { pk: GroupElement::generator().scalar_mul(&self.sk) }
    }
}

impl Keypair {
    /// The key pair of the secret `sk`.
    pub fn from_secret(sk: Scalar) -> (r: Keypair)
        ensures
            r.secret_key@ == sk@,
            r.public_key@ == gen_pow(sk@),
    {
        let secret_key = SecretKey::from_scalar(sk);
        let public_key = secret_key.to_public();
        Keypair { secret_key, public_key }
    }
}

impl PublicKey {
    /// Encrypts the message `m` with the coin `r`.
    pub fn encrypt_with_r(&self, m: &Scalar, r: &Scalar) -> (c: Ciphertext)
        ensures
            c@ == ct_encrypt(self@, m@, r@),
    {
        let gen = GroupElement::generator();
        let e1 = gen.scalar_mul(r);
        let e2 = self.pk.scalar_mul(r).add(&gen.scalar_mul(m));
        Ciphertext { e1, e2 }
    }

    /// Fixed-width encoding of the key.
    pub fn to_bytes(&self) -> (out: Vec<u8>)
        ensures
            out@ == element_bytes(self@),
            out@.len() == GROUP_ELEMENT_BYTES_LEN,
    {
        self.pk.to_bytes()
    }

    /// Decodes a key; `None` unless `bytes` encodes a group element.
    pub fn from_bytes(bytes: &[u8]) -> (r: Option<PublicKey>)
        ensures
            match r {
                Some(k) => element_from_bytes(bytes@) == Some(k@),
                None => element_from_bytes(bytes@) is None,
            },
    {
        match GroupElement::from_bytes(bytes) {
            Some(pk) => Some(PublicKey { pk }),
            None => None,
        }
    }
}

} // verus!
