//! A ballot being cast: the vote, its ciphertexts and the coins they were
//! made with.

use crate::gang::{scalar_values, Scalar};
use crate::gargamel::{ciphertext_values, ct_encrypt, Ciphertext, PublicKey};
use crate::rng::random_scalars;
use crate::unit_vector::{unit_entry, UnitVector, UnitVectorView};
use rand_chacha::ChaCha20Rng;
use vstd::prelude::*;

verus! {

/// A vote together with its encryption and the coins of the encryption.
/// The coins stay with the voter: the proof of correctness needs them.
#[derive(Debug)]
pub struct EncryptingVote {
    unit_vector: UnitVector,
    ciphertexts: Vec<Ciphertext>,
    random_elements: Vec<Scalar>,
}

/// The abstract ballot being cast.
pub struct EncryptingVoteView {
    pub vote: UnitVectorView,
    pub ciphertexts: Seq<(nat, nat)>,
    pub coins: Seq<nat>,
}

impl View for EncryptingVote {
    type V = EncryptingVoteView;

    closed spec fn view(&self) -> EncryptingVoteView {
        EncryptingVoteView {
            vote: self.unit_vector@,
            ciphertexts: ciphertext_values(self.ciphertexts@),
            coins: scalar_values(self.random_elements@),
        }
    }
}

/// The ciphertexts of the vote with its one at `ith`, under the key `pk`,
/// made with the coins `coins`: entry `j` encrypts one if `j == ith`, else
/// zero, with coin `coins[j]`.
pub open spec fn encrypt_unit_vector(pk: nat, ith: nat, coins: Seq<nat>) -> Seq<(nat, nat)> {
    Seq::new(coins.len(), |j: int| ct_encrypt(pk, unit_entry(ith, j as nat), coins[j]))
}

/// Whether a ballot is the encryption of its vote under `pk` with its coins.
pub open spec fn is_encryption_of(ev: EncryptingVoteView, pk: nat) -> bool {
    &&& ev.vote.ith < ev.vote.size
    &&& ev.coins.len() == ev.vote.size
    &&& ev.ciphertexts == encrypt_unit_vector(pk, ev.vote.ith, ev.coins)
}

impl Clone for EncryptingVote {
    fn clone(&self) -> (r: EncryptingVote)
        ensures
            r@ == self@,
    {
        proof {
            use_type_invariant(self);
        }
        EncryptingVote {
            unit_vector: self.unit_vector,
            ciphertexts: crate::hash::copy_vec(&self.ciphertexts),
            random_elements: crate::hash::copy_vec(&self.random_elements),
        }
    }
}

impl EncryptingVote {
    #[verifier::type_invariant]
    spec fn inv(self) -> bool {
        &&& self.unit_vector.well_formed()
        &&& self.ciphertexts@.len() == self.unit_vector@.size
        &&& self.random_elements@.len() == self.unit_vector@.size
    }

    /// Encrypts `vote` under `public_key`, one fresh coin per entry drawn
    /// from `rng`.
    pub fn prepare(rng: &mut ChaCha20Rng, public_key: &PublicKey, vote: &UnitVector) -> (r:
        EncryptingVote)
        ensures
            r@.vote == vote@,
            is_encryption_of(r@, public_key@),
    {
        let coins = random_scalars(rng, vote.len());
        EncryptingVote::prepare_with(public_key, vote, coins)
    }

    /// Encrypts `vote` under `public_key` with the given coins, one per
    /// entry.
    pub fn prepare_with(public_key: &PublicKey, vote: &UnitVector, coins: Vec<Scalar>) -> (r:
        EncryptingVote)
        requires
            coins@.len() == vote@.size,
        ensures
            r@.vote == vote@,
            r@.coins == scalar_values(coins@),
            is_encryption_of(r@, public_key@),
    {
        let n = vote.len();
        let mut ciphertexts: Vec<Ciphertext> = Vec::new();
        let mut j: usize = 0;
        while j < n
            invariant
                j <= n,
                n == coins@.len(),
                ciphertexts@.len() == j,
                forall|k: int|
                    0 <= k < j ==> (#[trigger] ciphertexts@[k])@ == ct_encrypt(
                        public_key@,
                        unit_entry(vote@.ith, k as nat),
                        coins@[k]@,
                    ),
            decreases n - j,
        {
            let m = if vote.is_jth(j) {
                Scalar::one()
            } else {
                Scalar::zero()
            };
            ciphertexts.push(public_key.encrypt_with_r(&m, &coins[j]));
            j = j + 1;
        }
        let r = EncryptingVote { unit_vector: *vote, ciphertexts, random_elements: coins };
        proof {
            assert(r@.ciphertexts =~= encrypt_unit_vector(public_key@, r@.vote.ith, r@.coins));
        }
        r
    }

    /// The vote.
    pub fn unit_vector(&self) -> (r: &UnitVector)
        ensures
            r@ == self@.vote,
    {
        &self.unit_vector
    }

    /// The ciphertexts, one per entry of the vote.
    pub fn ciphertexts(&self) -> (r: &Vec<Ciphertext>)
        ensures
            ciphertext_values(r@) == self@.ciphertexts,
            r@.len() == self@.vote.size,
    {
        proof {
            use_type_invariant(self);
        }
        &self.ciphertexts
    }

    /// The coins, one per entry of the vote.
    pub fn random_elements(&self) -> (r: &Vec<Scalar>)
        ensures
            scalar_values(r@) == self@.coins,
            r@.len() == self@.vote.size,
    {
        proof {
            use_type_invariant(self);
        }
        &self.random_elements
    }

    /// Gives up the coins and keeps the ciphertexts.
    pub fn into_ciphertexts(self) -> (r: Vec<Ciphertext>)
        ensures
            ciphertext_values(r@) == self@.ciphertexts,
            r@.len() == self@.vote.size,
    {
        proof {
            use_type_invariant(&self);
        }
        self.ciphertexts
    }
}

} // verus!
