use chain_vote::{
    encrypt_vote, result, verify_vote, EncryptedTally, EncryptingVoteKey, MemberCommunicationKey,
    MemberState, Vote, CRS,
};
use rand_chacha::ChaCha20Rng;
use rand_core::SeedableRng;

#[test]
fn encdec1() {
    let mut rng = ChaCha20Rng::from_seed([0u8; 32]);

    let h = CRS::random(&mut rng);

    let mc1 = MemberCommunicationKey::new(&mut rng);
    let mc = [mc1.to_public()];

    let threshold = 1;

    let m1 = MemberState::new(&mut rng, threshold, &h, &mc, 0);

    let participants = vec![m1.public_key()];
    let ek = EncryptingVoteKey::from_participants(&participants);

    println!("encrypting vote");

    let vote_options = 2;
    let e1 = encrypt_vote(&mut rng, &ek, Vote::new(vote_options, 0));
    let e2 = encrypt_vote(&mut rng, &ek, Vote::new(vote_options, 1));
    let e3 = encrypt_vote(&mut rng, &ek, Vote::new(vote_options, 0));

    println!("tallying");

    let mut tally = EncryptedTally::new(vote_options);
    tally.add(&e1.0, 6);
    tally.add(&e2.0, 5);
    tally.add(&e3.0, 4);

    let (ts, tds1) = tally.finish(m1.secret_key());

    let max_votes = 20;

    let shares = vec![tds1];

    println!("resulting");
    let tr = result(max_votes, 5, &ts, &shares);

    println!("{:?}", tr);
    assert_eq!(tr.votes.len(), vote_options);
    assert_eq!(tr.votes[0], Some(10), "vote for option 0");
    assert_eq!(tr.votes[1], Some(5), "vote for option 1");
}

#[test]
fn encdec3() {
    let mut rng = ChaCha20Rng::from_seed([0u8; 32]);

    let h = CRS::random(&mut rng);

    let mc1 = MemberCommunicationKey::new(&mut rng);
    let mc2 = MemberCommunicationKey::new(&mut rng);
    let mc3 = MemberCommunicationKey::new(&mut rng);
    let mc = [mc1.to_public(), mc2.to_public(), mc3.to_public()];

    let threshold = 3;

    let m1 = MemberState::new(&mut rng, threshold, &h, &mc, 0);
    let m2 = MemberState::new(&mut rng, threshold, &h, &mc, 1);
    let m3 = MemberState::new(&mut rng, threshold, &h, &mc, 2);

    let participants = vec![m1.public_key(), m2.public_key(), m3.public_key()];
    let ek = EncryptingVoteKey::from_participants(&participants);

    println!("encrypting vote");

    let vote_options = 2;
    let (e1, e1_proof) = encrypt_vote(&mut rng, &ek, Vote::new(vote_options, 0));
    let e2 = encrypt_vote(&mut rng, &ek, Vote::new(vote_options, 1));
    let e3 = encrypt_vote(&mut rng, &ek, Vote::new(vote_options, 0));

    assert!(verify_vote(&ek, &e1, &e1_proof));
    println!("tallying");

    let mut tally = EncryptedTally::new(vote_options);
    tally.add(&e1, 1);
    tally.add(&e2.0, 3);
    tally.add(&e3.0, 4);

    let (_, tds1) = tally.finish(m1.secret_key());
    let (_, tds2) = tally.finish(m2.secret_key());
    let (ts, tds3) = tally.finish(m3.secret_key());

    let max_votes = 20;

    let shares = vec![tds1, tds2, tds3];

    println!("resulting");
    let tr = result(max_votes, 5, &ts, &shares);

    println!("{:?}", tr);
    assert_eq!(tr.votes.len(), vote_options);
    assert_eq!(tr.votes[0], Some(5), "vote for option 0");
    assert_eq!(tr.votes[1], Some(3), "vote for option 1");
}

#[test]
fn honest_proofs_verify_for_every_size() {
    let mut rng = ChaCha20Rng::from_seed([7u8; 32]);
    let h = CRS::random(&mut rng);
    let mc = [MemberCommunicationKey::new(&mut rng).to_public()];
    let m1 = MemberState::new(&mut rng, 1, &h, &mc, 0);
    let ek = EncryptingVoteKey::from_participants(&[m1.public_key()]);
    for n in 1..=9usize {
        for i in 0..n {
            let (ev, proof) = encrypt_vote(&mut rng, &ek, Vote::new(n, i));
            assert_eq!(ev.len(), n);
            assert!(verify_vote(&ek, &ev, &proof), "n = {}, i = {}", n, i);
        }
    }
}
