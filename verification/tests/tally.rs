use chain_vote::committee::MemberSecretKey;
use chain_vote::gang::{GroupElement, Scalar};
use chain_vote::rng::random_scalars;
use rand_chacha::ChaCha20Rng;
use rand_core::SeedableRng;
use chain_vote::shvzk::Proof;
use chain_vote::tally::{
    ciphertexts_from_bytes, ciphertexts_to_bytes, decode_opened_slot, group_elements_to_bytes,
};
use chain_vote::{
    encrypt_vote, group_elements_from_bytes, result, verify_vote, Ciphertext, EncryptedTally,
    EncryptingVote, EncryptingVoteKey, TallyDecryptShare, TallyState, Vote,
};

fn committee(seed: u8, members: usize) -> (Vec<MemberSecretKey>, EncryptingVoteKey) {
    let mut rng = ChaCha20Rng::from_seed([seed; 32]);
    let secrets: Vec<MemberSecretKey> = random_scalars(&mut rng, members)
        .into_iter()
        .map(MemberSecretKey::from_scalar)
        .collect();
    let shares: Vec<_> = secrets.iter().map(|s| s.to_public()).collect();
    (secrets, EncryptingVoteKey::from_participants(&shares))
}

fn ballot(seed: u8, ek: &EncryptingVoteKey, options: usize, ith: usize) -> Vec<Ciphertext> {
    let mut rng = ChaCha20Rng::from_seed([seed; 32]);
    EncryptingVote::prepare(&mut rng, &ek.0, &Vote::new(options, ith)).into_ciphertexts()
}

#[test]
fn single_vote_comes_out_as_it_went_in() {
    let (secrets, ek) = committee(1, 1);
    for (options, ith, weight) in [(2usize, 0usize, 1u64), (4, 2, 1000), (7, 6, 31), (3, 1, 0)] {
        let mut tally = EncryptedTally::new(options);
        tally.add(&ballot(2, &ek, options, ith), weight);
        let (state, share) = tally.finish(&secrets[0]);
        // a budget of exactly the weight is enough, within the table and past it
        for max_votes in [weight, weight + 1] {
            let r = result(max_votes, 5, &state, &[share.clone()]);
            for j in 0..options {
                let expected = if j == ith { Some(weight) } else { Some(0) };
                assert_eq!(r.votes[j], expected, "options {} ith {} slot {}", options, ith, j);
            }
            assert_eq!(r.options, 0..options as u8);
        }
    }
}

#[test]
fn a_weight_of_many_bits_is_kept_by_the_tally() {
    // the decoder is not asked to count this far: the opened slot is compared
    let (secrets, ek) = committee(3, 1);
    let weight = (1u64 << 32) - 1;
    let mut tally = EncryptedTally::new(2);
    tally.add(&ballot(4, &ek, 2, 1), weight);
    let (state, share) = tally.finish(&secrets[0]);
    let opened = state.r2s[1].sub(&share.element(1));
    assert_eq!(
        opened,
        GroupElement::generator().scalar_mul(&Scalar::from_u64(weight))
    );
    assert_eq!(state.r2s[0].sub(&share.element(0)), GroupElement::zero());
}

#[test]
fn order_of_tallying_does_not_matter() {
    let (secrets, ek) = committee(5, 2);
    let votes: Vec<(Vec<Ciphertext>, u64)> = vec![
        (ballot(10, &ek, 3, 0), 6),
        (ballot(11, &ek, 3, 1), 5),
        (ballot(12, &ek, 3, 0), 4),
        (ballot(13, &ek, 3, 2), 9),
    ];
    let orders: [[usize; 4]; 4] = [[0, 1, 2, 3], [3, 2, 1, 0], [1, 3, 0, 2], [2, 0, 3, 1]];
    let mut tallies = Vec::new();
    for order in orders.iter() {
        let mut tally = EncryptedTally::new(3);
        for k in order.iter() {
            tally.add(&votes[*k].0, votes[*k].1);
        }
        tallies.push(tally);
    }
    for t in &tallies[1..] {
        assert_eq!(t, &tallies[0]);
    }
    let (state, s1) = tallies[2].finish(&secrets[0]);
    let (_, s2) = tallies[2].finish(&secrets[1]);
    let r = result(100, 3, &state, &[s1, s2]);
    assert_eq!(r.votes, vec![Some(10), Some(5), Some(9)]);
}

#[test]
fn all_members_are_needed_to_open() {
    let (secrets, ek) = committee(6, 3);
    let mut tally = EncryptedTally::new(2);
    tally.add(&ballot(20, &ek, 2, 0), 1);
    tally.add(&ballot(21, &ek, 2, 1), 3);
    tally.add(&ballot(22, &ek, 2, 0), 4);
    let shares: Vec<TallyDecryptShare> = secrets.iter().map(|s| tally.finish(s).1).collect();
    let state = tally.state();
    assert_eq!(result(20, 5, &state, &shares).votes, vec![Some(5), Some(3)]);
    // with a member missing the slots do not open to small counts
    let r = result(20, 5, &state, &shares[..2]);
    assert_eq!(r.votes, vec![None, None]);
}

#[test]
fn decoder_respects_table_and_budget() {
    let g = GroupElement::generator();
    let table = GroupElement::table(5);
    let at = |v: u64| g.scalar_mul(&Scalar::from_u64(v));
    assert_eq!(decode_opened_slot(&GroupElement::zero(), &table, 0), Some(0));
    assert_eq!(decode_opened_slot(&at(1), &table, 20), Some(1));
    assert_eq!(decode_opened_slot(&at(5), &table, 20), Some(5));
    assert_eq!(decode_opened_slot(&at(5), &table, 5), Some(5));
    // a hit in the table above the budget is no result
    assert_eq!(decode_opened_slot(&at(5), &table, 4), None);
    // past the table the count is found up to the budget, and not above it
    assert_eq!(decode_opened_slot(&at(6), &table, 7), Some(6));
    assert_eq!(decode_opened_slot(&at(6), &table, 6), Some(6));
    assert_eq!(decode_opened_slot(&at(7), &table, 6), None);
    assert_eq!(decode_opened_slot(&at(6), &table, 5), None);
    assert_eq!(decode_opened_slot(&at(19), &table, 20), Some(19));
    assert_eq!(decode_opened_slot(&at(20), &table, 20), Some(20));
    assert_eq!(decode_opened_slot(&at(21), &table, 20), None);
    // without a table the search starts at one
    let none = GroupElement::table(0);
    assert_eq!(decode_opened_slot(&at(1), &none, 2), Some(1));
    assert_eq!(decode_opened_slot(&at(1), &none, 1), Some(1));
    assert_eq!(decode_opened_slot(&at(1), &none, 0), None);
    assert_eq!(decode_opened_slot(&at(2), &none, 1), None);
    assert_eq!(decode_opened_slot(&at(3), &none, 10), Some(3));
    // the size of the table does not change what is found
    for size in 0..8 {
        let t = GroupElement::table(size);
        for count in 0..10u64 {
            for budget in 0..10u64 {
                let expected = if count <= budget { Some(count) } else { None };
                assert_eq!(decode_opened_slot(&at(count), &t, budget), expected);
            }
        }
    }
}

#[test]
fn budget_is_spent_slot_by_slot() {
    let (secrets, ek) = committee(7, 1);
    let mut tally = EncryptedTally::new(3);
    tally.add(&ballot(30, &ek, 3, 0), 10);
    tally.add(&ballot(31, &ek, 3, 1), 5);
    tally.add(&ballot(32, &ek, 3, 2), 1);
    let (state, share) = tally.finish(&secrets[0]);
    let shares = [share];
    assert_eq!(
        result(20, 5, &state, &shares).votes,
        vec![Some(10), Some(5), Some(1)]
    );
    // a budget of exactly the votes cast finds them all
    assert_eq!(
        result(16, 5, &state, &shares).votes,
        vec![Some(10), Some(5), Some(1)]
    );
    // twelve votes allowed: ten are found, two are left, five is above them
    assert_eq!(
        result(12, 5, &state, &shares).votes,
        vec![Some(10), None, Some(1)]
    );
    // ten votes allowed: the first slot takes them all
    assert_eq!(
        result(10, 5, &state, &shares).votes,
        vec![Some(10), None, None]
    );
    // nine votes allowed: the first slot is not found, the others are
    assert_eq!(
        result(9, 5, &state, &shares).votes,
        vec![None, Some(5), Some(1)]
    );
    assert_eq!(result(0, 0, &state, &shares).votes, vec![None, None, None]);
}

#[test]
fn tally_encoding_round_trips() {
    let (secrets, ek) = committee(8, 1);
    let mut tally = EncryptedTally::new(3);
    tally.add(&ballot(40, &ek, 3, 1), 7);
    let bytes = tally.to_bytes();
    assert_eq!(bytes.len(), 3 * 16);
    assert_eq!(EncryptedTally::from_bytes(&bytes), Some(tally.clone()));
    assert_eq!(EncryptedTally::from_bytes(&[]), Some(EncryptedTally::new(0)));
    for cut in 0..bytes.len() {
        if cut % 16 != 0 {
            assert_eq!(EncryptedTally::from_bytes(&bytes[..cut]), None);
        }
    }
    let mut longer = bytes.clone();
    longer.extend_from_slice(&[0, 0, 0]);
    assert_eq!(EncryptedTally::from_bytes(&longer), None);
    let mut broken = bytes.clone();
    broken[16..24].copy_from_slice(&u64::MAX.to_be_bytes());
    assert_eq!(EncryptedTally::from_bytes(&broken), None);
    // whole slots cut off leave a shorter tally
    assert_eq!(EncryptedTally::from_bytes(&bytes[..32]).map(|t| t.options()), Some(2));

    let (state, share) = tally.finish(&secrets[0]);
    let encoded = share.to_bytes();
    assert_eq!(encoded.len(), 8 + 3 * 8);
    assert_eq!(&encoded[..8], &3u64.to_be_bytes());
    assert_eq!(share.serialize(), encoded);
    assert_eq!(TallyDecryptShare::from_bytes(&encoded), Some(share.clone()));
    let state_bytes = state.to_bytes();
    assert_eq!(
        TallyState::from_bytes(&state_bytes).map(|s| s.r2s),
        Some(state.r2s.clone())
    );
    for cut in 0..encoded.len() {
        assert_eq!(TallyDecryptShare::from_bytes(&encoded[..cut]), None);
        assert!(TallyState::from_bytes(&state_bytes[..cut]).is_none());
    }
    let mut longer = encoded.clone();
    longer.extend_from_slice(&encoded[8..16]);
    assert_eq!(TallyDecryptShare::from_bytes(&longer), None);
    let empty = TallyDecryptShare::from_elements(vec![]);
    assert_eq!(empty.to_bytes(), vec![0u8; 8]);
    assert_eq!(TallyDecryptShare::from_bytes(&[0u8; 8]), Some(empty));
    assert_eq!(share.options(), 3);
    assert_eq!(share.duplicate(), share);
}

#[test]
fn dense_sequences_round_trip() {
    let g = GroupElement::generator();
    let elements = vec![g, g.add(&g), GroupElement::zero()];
    let bytes = group_elements_to_bytes(&elements);
    assert_eq!(bytes.len(), 24);
    assert_eq!(group_elements_from_bytes(&bytes), Some(elements));
    assert_eq!(group_elements_from_bytes(&bytes[..23]), None);
    assert_eq!(group_elements_from_bytes(&[0u8; 8]), None);
    assert_eq!(group_elements_from_bytes(&[]), Some(vec![]));
    let (_, ek) = committee(9, 1);
    let cts = ballot(50, &ek, 2, 0);
    let bytes = ciphertexts_to_bytes(&cts);
    assert_eq!(ciphertexts_from_bytes(&bytes), Some(cts));
    assert_eq!(ciphertexts_from_bytes(&bytes[..17]), None);
}

#[test]
fn proof_encoding_round_trips() {
    let (_, ek) = committee(11, 1);
    let mut rng = ChaCha20Rng::from_seed([12u8; 32]);
    for options in [1usize, 2, 3, 5] {
        let (vote, proof) = encrypt_vote(&mut rng, &ek, Vote::new(options, options - 1));
        let bytes = proof.to_bytes();
        assert_eq!(bytes.len(), 9 + 64 * proof.levels());
        let back = Proof::from_bytes(&bytes).unwrap();
        assert_eq!(back, proof);
        assert!(verify_vote(&ek, &vote, &back));
        assert_eq!(Proof::from_bytes(&bytes[..bytes.len() - 1]), None);
        let mut longer = bytes.clone();
        longer.push(0);
        assert_eq!(Proof::from_bytes(&longer), None);
        assert_eq!(proof.duplicate(), proof);
    }
    assert_eq!(Proof::from_bytes(&[]), None);
}

#[test]
fn tampered_proofs_do_not_verify() {
    let (_, ek) = committee(13, 2);
    let mut rng = ChaCha20Rng::from_seed([14u8; 32]);
    let (vote, proof) = encrypt_vote(&mut rng, &ek, Vote::new(3, 1));
    assert!(verify_vote(&ek, &vote, &proof));
    let bytes = proof.to_bytes();
    for at in 0..bytes.len() {
        for flip in [1u8, 0x80] {
            let mut tampered = bytes.clone();
            tampered[at] ^= flip;
            let ok = match Proof::from_bytes(&tampered) {
                Some(p) => verify_vote(&ek, &vote, &p),
                None => false,
            };
            assert!(!ok, "byte {} flipped by {}", at, flip);
        }
    }
}

#[test]
fn tampered_votes_do_not_verify() {
    let (_, ek) = committee(15, 1);
    let mut rng = ChaCha20Rng::from_seed([16u8; 32]);
    let (vote, proof) = encrypt_vote(&mut rng, &ek, Vote::new(2, 0));
    assert!(verify_vote(&ek, &vote, &proof));
    let bytes = ciphertexts_to_bytes(&vote);
    for bit in 0..bytes.len() * 8 {
        let mut tampered = bytes.clone();
        tampered[bit / 8] ^= 1 << (bit % 8);
        let ok = match ciphertexts_from_bytes(&tampered) {
            Some(v) => verify_vote(&ek, &v, &proof),
            None => false,
        };
        assert!(!ok, "bit {}", bit);
    }
    // another vote, another key, another number of options
    let (other, _) = encrypt_vote(&mut rng, &ek, Vote::new(2, 0));
    assert!(!verify_vote(&ek, &other, &proof));
    let (_, other_key) = committee(17, 1);
    assert!(!verify_vote(&other_key, &vote, &proof));
    assert!(!verify_vote(&ek, &vote[..1].to_vec(), &proof));
    assert!(!verify_vote(&ek, &vec![], &proof));
    // a vote that is no unit vector has no proof that holds
    let two = vec![vote[0], vote[0]];
    assert!(!verify_vote(&ek, &two, &proof));
}

#[test]
fn proofs_are_bound_to_their_reference_string() {
    let (_, ek) = committee(18, 1);
    let mut rng = ChaCha20Rng::from_seed([19u8; 32]);
    let crs = chain_vote::Crs::from_hash(b"plan one");
    let (vote, proof) = ek.encrypt_and_prove_vote(&mut rng, &crs, Vote::new(4, 3));
    assert!(ek.verify_vote(&crs, &vote, &proof));
    assert!(!ek.verify_vote(&chain_vote::Crs::from_hash(b"plan two"), &vote, &proof));
    assert!(!verify_vote(&ek, &vote, &proof));
    assert_eq!(ek.default_crs(), chain_vote::Crs::from_hash(&ek.to_bytes()));
}

#[test]
fn shares_are_appended_with_their_length() {
    let (secrets, ek) = committee(21, 1);
    let mut tally = EncryptedTally::new(2);
    tally.add(&ballot(22, &ek, 2, 1), 3);
    let (_, share) = tally.finish(&secrets[0]);
    let mut out = vec![0xaa];
    share.serialize_in(&mut out);
    assert_eq!(out[0], 0xaa);
    assert_eq!(&out[1..], &share.to_bytes()[..]);
}
