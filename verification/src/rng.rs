//! The source of random coins: a ChaCha stream generator that the caller
//! seeds and hands in.

use crate::gang::Scalar;
use rand_chacha::ChaCha20Rng;
use rand_core::{RngCore, SeedableRng};
use vstd::prelude::*;

verus! {

#[verifier::external_type_specification]
#[verifier::external_body]
pub struct ExChaCha20Rng(rand_chacha::ChaCha20Rng);

/// Draws the next 64 bits from the generator, by `RngCore::next_u64` of
/// `rand_chacha::ChaCha20Rng`. Nothing is claimed of the word drawn.
#[verifier::external_body]
pub(crate) fn next_word(rng: &mut ChaCha20Rng) -> (word: u64) {
    rng.next_u64()
}

/// The generator that a seed of 32 bytes gives, by `SeedableRng::from_seed`
/// of `rand_chacha::ChaCha20Rng`.
#[verifier::external_body]
pub(crate) fn seeded(seed: &[u8]) -> (rng: ChaCha20Rng)
    requires
        seed@.len() == 32,
{
    let seed: [u8; 32] = seed.try_into().unwrap();
    ChaCha20Rng::from_seed(seed)
}

/// Thirty-two bytes from the generator of the thread, by `rand::random`.
/// Nothing is claimed of the bytes but their number.
#[verifier::external_body]
pub(crate) fn thread_random_bytes() -> (bytes: Vec<u8>)
    ensures
        bytes@.len() == 32,
{
    rand::random::<[u8; 32]>().to_vec()
}

/// A scalar drawn from the generator: 128 fresh bits reduced modulo the
/// group order.
pub fn random_scalar(rng: &mut ChaCha20Rng) -> (r: Scalar)
    ensures
        r@ < crate::modarith::order(),
{
    let hi: u64 = next_word(rng);
    let lo: u64 = next_word(rng);
    let wide: u128 = ((hi as u128) << 64) | (lo as u128);
    let r = Scalar::from_u128(wide);
    proof {
        r.lemma_in_range();
    }
    r
}

impl Scalar {
    /// A scalar drawn from the generator.
    pub fn random(rng: &mut ChaCha20Rng) -> (r: Scalar)
        ensures
            r@ < crate::modarith::order(),
    {
        random_scalar(rng)
    }
}

/// `count` scalars drawn from the generator, in the order drawn.
pub fn random_scalars(rng: &mut ChaCha20Rng, count: usize) -> (r: Vec<Scalar>)
    ensures
        r@.len() == count,
{
    let mut out: Vec<Scalar> = Vec::new();
    let mut i: usize = 0;
    while i < count
        invariant
            i <= count,
            out@.len() == i,
        decreases count - i,
    {
        let s = random_scalar(rng);
        out.push(s);
        i = i + 1;
    }
    out
}

} // verus!
