//! Casting and checking a ballot: encryption of the vote together with the
//! proof that it is a unit vector.

use crate::committee::{crs_from_hash, Crs, ElectionPublicKey};
use crate::encrypted::{is_encryption_of, EncryptingVote, EncryptingVoteView};
use crate::gang::element_bytes;
use crate::gargamel::{ciphertext_values, Ciphertext};
use crate::shvzk::{is_proof_of, prove, verify, verify_spec, Proof};
use crate::unit_vector::UnitVector;
use rand_chacha::ChaCha20Rng;
use vstd::prelude::*;

verus! {

/// Public key that votes are encrypted to.
pub type EncryptingVoteKey = ElectionPublicKey;

/// A vote: the unit vector with its one at the chosen option.
pub type Vote = UnitVector;

/// Proof that an encrypted vote encrypts a unit vector.
pub type ProofOfCorrectVote = Proof;

/// The reference string used where none is given: derived from the election
/// key.
pub open spec fn default_crs(pk: nat) -> nat {
    crs_from_hash(element_bytes(pk))
}

/// What an honest voter hands in for a vote: the ciphertexts are the
/// encryption of the vote with some coins, and the proof is the prover's for
/// that ballot.
pub open spec fn is_honest_ballot(
    h: nat,
    pk: nat,
    vote: crate::unit_vector::UnitVectorView,
    ciphertexts: Seq<(nat, nat)>,
    proof: crate::shvzk::ProofView,
) -> bool {
    exists|ev: EncryptingVoteView| #[trigger]
        is_encryption_of(ev, pk) && ev.vote == vote && ev.ciphertexts == ciphertexts
            && is_proof_of(proof, h, pk, ev)
}

impl ElectionPublicKey {
    /// Encrypts a vote and proves it correct, in the context of the
    /// reference string `crs`.
    pub fn encrypt_and_prove_vote(&self, rng: &mut ChaCha20Rng, crs: &Crs, vote: Vote) -> (r: (
        Vec<Ciphertext>,
        Proof,
    ))
        ensures
            is_honest_ballot(crs@, self@, vote@, ciphertext_values(r.0@), r.1@),
            verify_spec(crs@, self@, ciphertext_values(r.0@), r.1@),
            r.0@.len() == vote@.size,
    {
        let size = vote.len();
        let ev = EncryptingVote::prepare(rng, &self.0, &vote);
        let proof = prove(rng, crs, &self.0, &ev);
        let ghost view = ev@;
        let ciphertexts = ev.into_ciphertexts();
        proof {
            assert(is_encryption_of(view, self@) && view.vote == vote@ && view.ciphertexts
                == ciphertext_values(ciphertexts@) && is_proof_of(proof@, crs@, self@, view));
            crs.lemma_is_member();
            self.0.pk.lemma_is_member();
            crate::shvzk_laws::lemma_honest_ballot_verifies(
                crs@,
                self@,
                vote@,
                ciphertext_values(ciphertexts@),
                proof@,
            );
        }
        (ciphertexts, proof)
    }

    /// Checks the proof of an encrypted vote, in the context of the
    /// reference string `crs`.
    pub fn verify_vote(&self, crs: &Crs, vote: &Vec<Ciphertext>, proof: &Proof) -> (ok: bool)
        ensures
            ok == verify_spec(crs@, self@, ciphertext_values(vote@), proof@),
    {
        verify(crs, &self.0, vote, proof)
    }

    /// The reference string used where none is given.
    pub fn default_crs(&self) -> (crs: Crs)
        ensures
            crs@ == default_crs(self@),
    {
        let bytes = self.to_bytes();
        Crs::from_hash(bytes.as_slice())
    }
}

/// Takes a vote, encrypts it and provides a proof of correct voting.
///
/// The proof is bound to the reference string derived from the election
/// key, and `verify_vote` accepts it. The manager of a vote plan checks
/// ballots against the reference string derived from the plan's identifier
/// and refuses this proof: a ballot for a plan is made with
/// `ElectionPublicKey::encrypt_and_prove_vote` and the plan's reference
/// string.
pub fn encrypt_vote(rng: &mut ChaCha20Rng, public_key: &EncryptingVoteKey, vote: Vote) -> (r: (
    Vec<Ciphertext>,
    ProofOfCorrectVote,
))
    ensures
        is_honest_ballot(
            default_crs(public_key@),
            public_key@,
            vote@,
            ciphertext_values(r.0@),
            r.1@,
        ),
        verify_spec(default_crs(public_key@), public_key@, ciphertext_values(r.0@), r.1@),
        r.0@.len() == vote@.size,
{
    let crs = public_key.default_crs();
    public_key.encrypt_and_prove_vote(rng, &crs, vote)
}

/// Verifies that the encrypted vote is valid without opening it.
///
/// The proof is checked against the reference string derived from the
/// election key, the one that `encrypt_vote` binds it to. A ballot made for
/// a vote plan is checked with `ElectionPublicKey::verify_vote` and the
/// plan's reference string.
pub fn verify_vote(
    public_key: &EncryptingVoteKey,
    vote: &Vec<Ciphertext>,
    proof: &ProofOfCorrectVote,
) -> (ok: bool)
    ensures
        ok == verify_spec(default_crs(public_key@), public_key@, ciphertext_values(vote@), proof@),
{
    let crs = public_key.default_crs();
    public_key.verify_vote(&crs, vote, proof)
}

} // verus!
