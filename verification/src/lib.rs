//! Private voting core: ElGamal ballots over a prime-order group, proofs of
//! ballot correctness, homomorphic tallies and the vote-plan ledger.

pub mod ballot;
pub mod block;
pub mod certificate;
pub mod codec;
pub mod committee;
pub mod congruence;
pub mod date;
pub mod encrypted;
pub mod fee;
pub mod fragment;
pub mod gang;
pub mod gargamel;
pub mod generator;
pub mod hash;
pub mod key;
pub mod ledger;
pub mod modarith;
pub mod persistent;
pub mod primality;
pub mod rng;
pub mod shvzk;
pub mod shvzk_laws;
pub mod stake;
pub mod tally;
pub mod tally_laws;
pub mod testing;
pub mod transaction;
pub mod trie;
pub mod unit_vector;
pub mod value;
pub mod vote;
pub mod witness;
pub mod watch;

pub use ballot::{encrypt_vote, verify_vote, EncryptingVoteKey, ProofOfCorrectVote, Vote};
pub use committee::{
    Crs, ElectionPublicKey, MemberCommunicationKey, MemberCommunicationPublicKey,
    MemberPublicKey, MemberSecretKey, MemberState, CRS, MEMBER_PUBLIC_KEY_BYTES_LEN,
};
pub use encrypted::EncryptingVote;
pub use gargamel::{Ciphertext, CIPHERTEXT_BYTES_LEN};
pub use tally::{
    group_elements_from_bytes, result, EncryptedTally, EncryptedVote, OpeningVoteKey,
    TallyDecryptShare, TallyResult, TallyState,
};
pub use unit_vector::UnitVector;
