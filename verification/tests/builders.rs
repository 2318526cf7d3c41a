use chain_vote::certificate::{
    Certificate, CertificateKind, EncryptedVoteTally, OwnerStakeDelegation, PoolPermissions,
    PoolRetirement, StakeDelegation, VoteAction, VoteCast, VoteTally,
};
use chain_vote::block::{are_desc_equal, HeaderDesc};
use chain_vote::certificate::{Proposal, Proposals, TreasuryGovernanceAction, VotePlan};
use chain_vote::date::BlockDate;
use chain_vote::vote::Options;
use chain_vote::fee::LinearFee;
use chain_vote::fragment::Fragment;
use chain_vote::hash::Digest;
use chain_vote::ledger::Error;
use rand_chacha::ChaCha20Rng;
use rand_core::SeedableRng;
use chain_vote::testing::{
    build_stake_pool_registration_cert, encrypted_tally_sign, plan_sign, pool_owner_sign,
    pool_owner_signed, tally_sign, ConfigBuilder, FaultTolerantTxCertBuilder, LedgerBuilder,
    ProposalDef, StakePoolBuilder, StakePoolDef, StakePoolTemplate, TestGen, TestLedger,
    TestTxCertBuilder, VotePlanDef, VoteTestGen, Wallet, WalletTemplate,
};
use chain_vote::transaction::{PayloadAuth, TxBuilder};
use chain_vote::value::Value;
use chain_vote::vote::{
    Choice, CommitteeId, ManagerStatus, Payload, PayloadType, VotePlanLedgerError,
};
use chain_vote::watch::{MempoolEvent, MempoolUpdate};

fn date(epoch: u32, slot: u32) -> BlockDate {
    BlockDate::from_epoch_slot_id(epoch, slot)
}

#[test]
fn generated_proposals_and_plans() {
    let p = VoteTestGen::proposal();
    assert_eq!(p.options().as_byte(), 4);
    assert_eq!(p.action(), VoteAction::OffChain);
    assert_ne!(VoteTestGen::proposal().external_id(), p.external_id());
    assert_ne!(VoteTestGen::external_proposal_id(), VoteTestGen::external_proposal_id());
    assert_eq!(VoteTestGen::proposals(0).len(), 0);
    assert_eq!(VoteTestGen::proposals(255).len(), 255);
    let plan = VoteTestGen::vote_plan();
    assert_eq!(plan.vote_start(), date(1, 0));
    assert_eq!(plan.vote_end(), date(2, 0));
    assert_eq!(plan.committee_end(), date(3, 0));
    assert_eq!(plan.proposals().len(), 3);
    assert_eq!(plan.payload_type(), PayloadType::Public);
    assert!(plan.committee_public_keys().is_empty());
    assert!(plan.can_vote(date(1, 0)) && plan.can_vote(date(2, 0)));
    assert!(!plan.can_vote(date(0, 99)) && !plan.can_vote(date(2, 1)));
    assert!(plan.can_committee(date(2, 0)) && plan.can_committee(date(3, 0)));
    assert!(!plan.can_committee(date(1, 99)) && !plan.can_committee(date(3, 1)));
    assert_eq!(VoteTestGen::vote_plan_with_proposals(7).proposals().len(), 7);
    let private = VoteTestGen::private_vote_plan();
    assert_eq!(private.payload_type(), PayloadType::Private);
    assert_eq!(private.committee_public_keys().len(), 3);
    let committee = VoteTestGen::committee_members_manager(2, 1);
    assert_eq!(committee.members().len(), 2);
    assert_eq!(committee.threshold(), 1);
    let again = VoteTestGen::committee_members_manager(2, 1);
    assert_eq!(committee.public_keys(), again.public_keys());
    assert_ne!(committee.public_keys()[0], committee.public_keys()[1]);
    let plan = VoteTestGen::private_vote_plan_with_committees_manager(&committee);
    assert_eq!(plan.committee_public_keys(), &committee.public_keys());
}

#[test]
fn generated_votes_and_governance() {
    let cast = VoteTestGen::vote_cast();
    assert_eq!(cast.proposal_index(), 0);
    assert_eq!(cast.payload(), &Payload::public(Choice::new(1)));
    let plan = VoteTestGen::vote_plan();
    let cast = VoteTestGen::vote_cast_for(&plan);
    assert_eq!(cast.vote_plan(), &plan.to_id());
    assert_eq!(VoteTestGen::vote_cast_payload(), Payload::public(Choice::new(1)));
    assert_eq!(
        VoteTestGen::vote_cast_payload_for(&Choice::new(3)),
        Payload::public(Choice::new(3))
    );
    let tally = VoteTestGen::vote_tally();
    assert_eq!(tally.tally_type(), PayloadType::Public);
    assert!(tally.tally_decrypted().is_none());
    let treasury = VoteTestGen::treasury_governance();
    let parameters = VoteTestGen::parameters_governance();
    assert!(treasury
        .acceptance_criteria_for(chain_vote::certificate::TreasuryGovernanceAction::NoOp)
        .accepts(10, &vec![0, 3, 2]));
    assert!(!parameters
        .acceptance_criteria_for(chain_vote::certificate::ParametersGovernanceAction::NoOp)
        .accepts(10, &vec![0, 2, 3]));
    let private = VoteTestGen::private_vote_plan();
    let proposal = private.proposals().get(1).unwrap();
    let mut rng = ChaCha20Rng::from_seed([1u8; 32]);
    match VoteTestGen::private_vote_cast_payload_for(&private, &proposal, Choice::new(2), &mut rng)
    {
        Payload::Private { encrypted_vote, proof } => {
            assert_eq!(encrypted_vote.len(), 4);
            assert_eq!(proof.levels(), 2);
        }
        _ => panic!("the payload should be encrypted"),
    }
}

#[test]
fn templates_describe_a_scenario() {
    let w = WalletTemplate::new("alice", Value(42));
    assert_eq!(w.alias(), "alice");
    assert_eq!(w.delegates_stake_pool(), None);
    assert_eq!(w.owns_stake_pool(), None);
    assert!(!w.is_committee_member());
    assert_eq!(w.initial_value, Value(42));
    assert!(w.same_alias(&WalletTemplate::new("alice", Value(1))));
    assert!(!w.same_alias(&WalletTemplate::new("bob", Value(42))));
    let delegating = WalletTemplate {
        stake_pool_delegate_alias: Some("pool".to_owned()),
        stake_pool_owner_alias: Some("mine".to_owned()),
        committee_member: true,
        ..WalletTemplate::new("carol", Value(0))
    };
    assert_eq!(delegating.delegates_stake_pool(), Some("pool".to_owned()));
    assert_eq!(delegating.owns_stake_pool(), Some("mine".to_owned()));
    assert!(delegating.is_committee_member());

    let owner = TestGen::public_key();
    let pool = StakePoolTemplate { alias: "pool".to_owned(), owners: vec![owner] };
    assert_eq!(pool.alias(), "pool");
    assert_eq!(pool.owners(), vec![owner]);
    let def = StakePoolDef {
        alias: "pool".to_owned(),
        permissions_threshold: Some(3),
        has_reward_account: false,
        tax_type: None,
    };
    assert_eq!(def.pool_permission(), Some(PoolPermissions::new(3)));
    assert_eq!(def.pool_permission().unwrap().management_threshold(), 3);
    assert_eq!(PoolPermissions::new(64 + 5).management_threshold(), 5);
    let none = StakePoolDef { permissions_threshold: None, ..def };
    assert_eq!(none.pool_permission(), None);

    let id = Digest::digest_byteslice(b"p");
    let proposal = ProposalDef::new(id, 3, VoteAction::OffChain).unwrap();
    assert_eq!(proposal.id(), id);
    assert_eq!(proposal.to_proposal().options().as_byte(), 3);
    assert!(ProposalDef::new(id, 0, VoteAction::OffChain).is_none());
    assert!(ProposalDef::new(id, 17, VoteAction::OffChain).is_none());
    let committee = VoteTestGen::committee_members_manager(1, 1);
    let mut plan = VotePlanDef::new(
        "plan",
        "alice",
        PayloadType::Public,
        date(1, 0),
        date(2, 0),
        date(3, 0),
        vec![],
        vec![proposal, proposal],
    );
    assert_eq!(plan.alias(), "plan");
    assert_eq!(plan.owner(), "alice");
    assert_eq!(plan.proposals(), vec![proposal, proposal]);
    assert_eq!(plan.proposal(1), proposal);
    assert_eq!(plan.committee_keys(), vec![]);
    let vote_plan = plan.to_vote_plan();
    assert_eq!(vote_plan.proposals().len(), 2);
    assert_eq!(vote_plan.vote_end(), date(2, 0));
    assert_eq!(plan.id(), vote_plan.to_id().to_hex());
    assert_eq!(plan.id().len(), 64);
    let before = plan.id();
    plan.committee_keys_mut().push(committee.public_keys()[0]);
    assert_eq!(plan.committee_keys(), committee.public_keys());
    assert_ne!(plan.id(), before);
}

#[test]
fn mempool_updates_carry_their_event() {
    let id = Digest::digest_byteslice(b"fragment");
    let update = MempoolUpdate::rejected(id, "too late".to_owned());
    assert_eq!(update.fragment_id, id);
    match update.event {
        MempoolEvent::FragmentRejected { reason } => assert_eq!(reason, "too late"),
        _ => panic!("the event should be a rejection"),
    }
    let inserted = MempoolUpdate { fragment_id: id, event: MempoolEvent::FragmentInserted };
    assert!(matches!(inserted.event, MempoolEvent::FragmentInserted));
    let in_block = MempoolEvent::FragmentInABlock { block_id: id };
    assert!(matches!(in_block, MempoolEvent::FragmentInABlock { block_id } if block_id == id));
}

#[test]
fn fees_are_linear() {
    let fee = LinearFee::new(10, 3, 100);
    assert_eq!(fee.calculate(false, 0, 0), Value(10));
    assert_eq!(fee.calculate(true, 1, 0), Value(113));
    assert_eq!(fee.calculate(false, 2, 5), Value(31));
    assert_eq!(
        LinearFee::new(u64::MAX, u64::MAX, u64::MAX).calculate(true, 255, 255),
        Value(u64::MAX)
    );
    let builder = TestTxCertBuilder::new(Digest::digest_byteslice(b"0"), fee);
    assert_eq!(builder.block0_hash(), &Digest::digest_byteslice(b"0"));
    let cert = Certificate::VoteCast(VoteTestGen::vote_cast());
    assert_eq!(builder.fee(&cert), Value(113));
    assert_eq!(Value(3).checked_add(Value(4)), Some(Value(7)));
    assert_eq!(Value(u64::MAX).checked_add(Value(1)), None);
    assert_eq!(Value::zero(), Value(0));
}

fn ledger_with(wallets: Vec<&Wallet>, fee: LinearFee, committee: Vec<CommitteeId>) -> TestLedger {
    LedgerBuilder::from_config(ConfigBuilder::new().with_fee(fee))
        .faucets_wallets(wallets)
        .committee_members(committee)
        .build()
        .expect("cannot build test ledger")
}

#[test]
fn every_certificate_gets_its_fragment() {
    let alice = Wallet::from_value(Value(100));
    let pool = Digest::digest_byteslice(b"pool");
    let plan = VoteTestGen::vote_plan();
    let certs = vec![
        Certificate::StakeDelegation(StakeDelegation { account_id: alice.identifier(), pool_id: pool }),
        Certificate::OwnerStakeDelegation(OwnerStakeDelegation { pool_id: pool }),
        build_stake_pool_registration_cert(
            &StakePoolBuilder::new().with_owners(vec![alice.public_key()]).build().info(),
        ),
        Certificate::PoolRetirement(PoolRetirement { pool_id: pool, retirement_time: 3 }),
        Certificate::VotePlan(plan.clone()),
        Certificate::VoteCast(VoteTestGen::vote_cast_for(&plan)),
        Certificate::VoteTally(VoteTally::new_public(plan.to_id())),
        Certificate::EncryptedVoteTally(EncryptedVoteTally::new(plan.to_id())),
    ];
    let block0 = Digest::digest_byteslice(b"block0");
    for cert in certs.iter() {
        let builder = TestTxCertBuilder::new(block0, LinearFee::new(1, 1, 1));
        let fragment = builder.make_transaction(date(0, 0), &[alice], cert);
        assert_eq!(fragment.kind(), cert.kind());
        let tx = fragment.transaction();
        assert_eq!(tx.payload.serialize(), cert.serialize());
        assert_eq!(tx.inputs.len(), 1);
        assert_eq!(tx.inputs[0], alice.make_input_with_value(Value(3)));
        assert!(tx.outputs.is_empty());
        assert_eq!(tx.witnesses.len(), 1);
        let data = tx.transaction_binding_auth_data();
        let key = alice.public_key();
        match (&tx.auth, cert.kind()) {
            (PayloadAuth::Single(s), CertificateKind::StakeDelegation) => {
                assert!(key.verify(&data, s))
            }
            (PayloadAuth::NoAuth, CertificateKind::OwnerStakeDelegation) => {}
            (PayloadAuth::NoAuth, CertificateKind::VoteCast) => {}
            (PayloadAuth::Pool(_), CertificateKind::PoolRegistration) => {}
            (PayloadAuth::Pool(_), CertificateKind::PoolRetirement) => {}
            (PayloadAuth::VotePlan(p), CertificateKind::VotePlan) => {
                assert_eq!(p.id, CommitteeId::from_public_key(key));
                assert!(key.verify(&data, &p.signature));
            }
            (PayloadAuth::Tally(p), CertificateKind::VoteTally) => {
                assert_eq!(p.committee_id(), CommitteeId::from_public_key(key));
            }
            (PayloadAuth::EncryptedTally(p), CertificateKind::EncryptedVoteTally) => {
                assert!(key.verify(&data, &p.signature));
            }
            _ => panic!("the certificate is not authorized as its kind asks"),
        }
    }
    assert_eq!(
        Fragment::from_transaction(TxBuilder::new()
            .set_payload(&certs[1])
            .set_expiry_date(date(0, 0))
            .set_ios(&[], &[])
            .set_witnesses_unchecked(&[])
            .set_payload_auth(PayloadAuth::NoAuth))
        .kind(),
        CertificateKind::OwnerStakeDelegation
    );
}

#[test]
fn signing_helpers_sign_with_the_keys() {
    let keys = vec![TestGen::secret_key(), TestGen::secret_key()];
    let plan = VoteTestGen::vote_plan();
    let cert = Certificate::VoteTally(VoteTally::new_public(plan.to_id()));
    let builder = TxBuilder::new()
        .set_payload(&cert)
        .set_expiry_date(date(1, 1))
        .set_ios(&[], &[])
        .set_witnesses_unchecked(&[]);
    let data = builder.get_auth_data();
    let first = keys[0].to_public();
    let tally = tally_sign(&keys, &VoteTally::new_public(plan.to_id()), &builder);
    match tally {
        chain_vote::certificate::TallyProof::Public { id, signature } => {
            assert_eq!(id, CommitteeId::from_public_key(first));
            assert!(first.verify(&data, &signature));
        }
        _ => panic!("the tally is in the open"),
    }
    let start = encrypted_tally_sign(&keys, &builder);
    assert_eq!(start.id, CommitteeId::from_public_key(first));
    assert!(first.verify(&data, &start.signature));
    let p = plan_sign(&keys, &builder);
    assert!(first.verify(&data, &p.signature));
    assert!(!keys[1].to_public().verify(&data, &p.signature));
    let signed = pool_owner_signed(&keys, &builder);
    assert_eq!(signed.signatures.len(), 2);
    for (i, s) in signed.signatures.iter().enumerate() {
        assert_eq!(s.index as usize, i);
        assert!(keys[i].to_public().verify(&data, &s.signature));
    }
    assert!(matches!(
        pool_owner_sign(&keys, &builder),
        chain_vote::certificate::PoolSignature::Owners(o) if o.signatures.len() == 2
    ));
    assert!(pool_owner_signed(&[], &builder).signatures.is_empty());
}

#[test]
fn faulty_transactions_are_refused() {
    let alice = Wallet::from_value(Value(100));
    let fee = LinearFee::new(1, 1, 1);
    let mut ledger = ledger_with(vec![&alice], fee, vec![]);
    let cert = build_stake_pool_registration_cert(
        &StakePoolBuilder::new().with_owners(vec![alice.public_key()]).build().info(),
    );
    let funder = alice.identifier();
    let builder =
        FaultTolerantTxCertBuilder::new(ledger.block0_hash, fee, cert, ledger.date(), alice);
    let no_witness = Err(Error::NotEnoughSignatures { actual: 0, expected: 1 });
    let f = builder.transaction_no_witness();
    assert_eq!(f.transaction().inputs.len(), 1);
    assert_eq!(f.transaction().inputs[0].value, Value(3));
    assert_eq!(f.transaction().inputs[0].account, funder);
    assert!(f.transaction().outputs.is_empty());
    assert_eq!(ledger.apply_fragment(&f, ledger.date()), no_witness);
    let f = builder.transaction_with_input_only();
    assert_eq!(f.transaction().inputs.len(), 1);
    assert_eq!(f.transaction().inputs[0].value, Value(3));
    assert_eq!(f.transaction().inputs[0].account, funder);
    assert!(f.transaction().outputs.is_empty());
    assert_eq!(ledger.apply_fragment(&f, ledger.date()), no_witness);
    let f = builder.transaction_with_witness();
    assert_eq!(f.transaction().inputs.len(), 1);
    assert_eq!(f.transaction().inputs[0].value, Value(3));
    assert_eq!(f.transaction().inputs[0].account, funder);
    assert_eq!(ledger.apply_fragment(&f, ledger.date()), no_witness);
    let f = builder.transaction_input_to_low();
    assert_eq!(f.transaction().inputs.len(), 1);
    assert_eq!(f.transaction().inputs[0].value, Value(1));
    assert_eq!(f.transaction().inputs[0].account, funder);
    assert_eq!(f.transaction().outputs.len(), 1);
    assert_eq!(f.transaction().outputs[0].value, Value(2));
    assert_eq!(f.transaction().outputs[0].address, funder);
    assert_eq!(ledger.apply_fragment(&f, ledger.date()), no_witness);
    let f = builder.transaction_with_input_output();
    assert_eq!(f.transaction().inputs.len(), 1);
    assert_eq!(f.transaction().inputs[0].value, Value(4));
    assert_eq!(f.transaction().inputs[0].account, funder);
    assert_eq!(f.transaction().outputs.len(), 1);
    assert_eq!(f.transaction().outputs[0].value, Value(1));
    assert_eq!(f.transaction().outputs[0].address, funder);
    assert_eq!(ledger.apply_fragment(&f, ledger.date()), no_witness);
    let f = builder.transaction_with_output_only();
    assert!(f.transaction().inputs.is_empty());
    assert_eq!(f.transaction().outputs.len(), 1);
    assert_eq!(f.transaction().outputs[0].value, Value(3));
    assert_eq!(f.transaction().outputs[0].address, funder);
    assert_eq!(
        ledger.apply_fragment(&f, ledger.date()),
        Err(Error::NotBalanced { inputs: 0, outputs: 6 })
    );
}

#[test]
fn ledger_takes_fees_and_checks_witnesses() {
    let alice = Wallet::from_value(Value(100));
    let bob = Wallet::from_value(Value(2));
    let stranger = Wallet::from_value(Value(100));
    let fee = LinearFee::new(1, 1, 1);
    let mut ledger = ledger_with(vec![&alice, &bob], fee, vec![]);
    let pool = StakePoolBuilder::new()
        .with_owners(vec![alice.public_key(), bob.public_key()])
        .with_pool_permissions(PoolPermissions::new(2))
        .build();
    let cert = build_stake_pool_registration_cert(&pool.info());
    let make = |funder: &Wallet, signers: &[Wallet], ledger: &TestLedger| {
        TestTxCertBuilder::new(ledger.block0_hash, ledger.fee())
            .make_transaction_different_signers(ledger.date(), funder, signers, &cert)
    };
    let f = make(&stranger, &[alice, bob], &ledger);
    assert_eq!(ledger.apply_fragment(&f, date(0, 1)), Err(Error::AccountNotFound));
    let f = make(&bob, &[alice, bob], &ledger);
    assert_eq!(ledger.apply_fragment(&f, date(0, 1)), Err(Error::NotEnoughFunds));
    // one owner is not enough for a threshold of two
    let f = make(&alice, &[alice], &ledger);
    assert_eq!(ledger.apply_fragment(&f, date(0, 1)), Err(Error::CertificateInvalidSignature));
    // owners have to sign in their order
    let f = make(&alice, &[bob, alice], &ledger);
    assert_eq!(ledger.apply_fragment(&f, date(0, 1)), Err(Error::CertificateInvalidSignature));
    assert_eq!(ledger.ledger.accounts[0].value, Value(100));
    assert_eq!(ledger.date(), date(0, 0));
    let f = make(&alice, &[alice, bob], &ledger);
    assert_eq!(ledger.apply_fragment(&f, date(0, 1)), Ok(()));
    assert_eq!(ledger.ledger.accounts[0].value, Value(97));
    assert_eq!(ledger.ledger.accounts[0].counter, 1);
    assert_eq!(ledger.ledger.accounts[1].value, Value(2));
    assert_eq!(ledger.ledger.pools.len(), 1);
    assert_eq!(ledger.date(), date(0, 1));
    // the witness was made for the counter before: it does not hold any more
    assert_eq!(ledger.apply_fragment(&f, date(0, 1)), Err(Error::AccountInvalidSignature));
    // a fragment of another chain is refused as well
    let other = TestTxCertBuilder::new(Digest::digest_byteslice(b"other"), fee)
        .make_transaction(date(0, 1), &[alice, bob], &cert);
    assert_eq!(ledger.apply_fragment(&other, date(0, 1)), Err(Error::AccountInvalidSignature));
    // a fragment that says it is of another kind than its certificate
    let tx = TxBuilder::new()
        .set_payload(&cert)
        .set_expiry_date(date(0, 0))
        .set_ios(&[], &[])
        .set_witnesses_unchecked(&[])
        .set_payload_auth(PayloadAuth::NoAuth);
    assert_eq!(
        ledger.apply_fragment(&Fragment::VoteCast(tx), date(0, 1)),
        Err(Error::FragmentPayloadMismatch)
    );
}

#[test]
fn pools_are_registered_once_and_retired_by_their_owners() {
    let alice = Wallet::from_value(Value(100));
    let bob = Wallet::from_value(Value(100));
    let mut ledger = ledger_with(vec![&alice, &bob], LinearFee::new(0, 0, 0), vec![]);
    let pool = StakePoolBuilder::new().with_owners(vec![alice.public_key()]).build();
    let register = build_stake_pool_registration_cert(&pool.info());
    let mut counter = 0u32;
    let mut apply = |ledger: &mut TestLedger, signer: Wallet, cert: &Certificate| {
        // the funder's counter moves on with every accepted fragment
        let funder = Wallet::from_key(alice.private_key(), Value(100));
        let _ = counter;
        let f = TestTxCertBuilder::new(ledger.block0_hash, ledger.fee())
            .make_transaction_different_signers(ledger.date(), &funder, &[signer], cert);
        let r = ledger.apply_fragment(&f, ledger.date());
        if r.is_ok() {
            counter += 1;
        }
        r
    };
    assert_eq!(apply(&mut ledger, alice, &register), Ok(()));
    let id = ledger.ledger.pools[0].id;
    let retire = Certificate::PoolRetirement(PoolRetirement { pool_id: id, retirement_time: 0 });
    // the second fragment of the same account needs the next counter: refused as it is
    assert_eq!(apply(&mut ledger, alice, &retire), Err(Error::AccountInvalidSignature));
    let unknown = Certificate::OwnerStakeDelegation(OwnerStakeDelegation {
        pool_id: Digest::digest_byteslice(b"none"),
    });
    let f = TestTxCertBuilder::new(ledger.block0_hash, ledger.fee())
        .make_transaction(ledger.date(), &[bob], &unknown);
    assert_eq!(ledger.apply_fragment(&f, ledger.date()), Err(Error::PoolNotFound));
    let f = TestTxCertBuilder::new(ledger.block0_hash, ledger.fee())
        .make_transaction(ledger.date(), &[bob], &retire);
    assert_eq!(
        ledger.apply_fragment(&f, ledger.date()),
        Err(Error::CertificateInvalidSignature)
    );
    let known = Certificate::OwnerStakeDelegation(OwnerStakeDelegation { pool_id: id });
    let f = TestTxCertBuilder::new(ledger.block0_hash, ledger.fee())
        .make_transaction(ledger.date(), &[bob], &known);
    assert_eq!(ledger.apply_fragment(&f, ledger.date()), Ok(()));
    assert_eq!(ledger.ledger.pools.len(), 1);
}

#[test]
fn vote_plans_go_through_the_ledger() {
    let alice = Wallet::from_value(Value(10));
    let member = Wallet::from_value(Value(0));
    let stranger = Wallet::from_value(Value(0));
    let committee = vec![CommitteeId::from_public_key(member.public_key())];
    let mut ledger = ledger_with(
        vec![&alice, &member, &stranger],
        LinearFee::new(0, 0, 0),
        committee,
    );
    let plan = VoteTestGen::vote_plan();
    let id = plan.to_id();
    let fragment = |ledger: &TestLedger, who: &Wallet, cert: &Certificate| {
        TestTxCertBuilder::new(ledger.block0_hash, ledger.fee())
            .make_transaction(ledger.date(), &[*who], cert)
    };
    let add = Certificate::VotePlan(plan.clone());
    let f = fragment(&ledger, &stranger, &add);
    assert_eq!(ledger.apply_fragment(&f, date(0, 0)), Err(Error::CertificateInvalidSignature));
    let f = fragment(&ledger, &member, &add);
    assert_eq!(
        ledger.apply_fragment(&f, date(2, 1)),
        Err(Error::VotePlan {
            source: VotePlanLedgerError::VotePlanVoteEndPassed {
                current_date: date(2, 1),
                vote_end: date(2, 0),
            }
        })
    );
    assert_eq!(ledger.apply_fragment(&f, date(0, 5)), Ok(()));
    assert!(ledger.ledger.votes.contains(&id));

    let cast = Certificate::VoteCast(VoteCast::new(id, 0, Payload::public(Choice::new(1))));
    let f = fragment(&ledger, &alice, &cast);
    assert_eq!(ledger.apply_fragment(&f, date(1, 0)), Ok(()));
    let tally = Certificate::VoteTally(VoteTally::new_public(id));
    let member_now = Wallet::from_key(member.private_key(), Value(0));
    // the member has spent once: its witness needs the counter of the ledger
    let f = fragment(&ledger, &member_now, &tally);
    assert_eq!(ledger.apply_fragment(&f, date(2, 0)), Err(Error::AccountInvalidSignature));
    let f = fragment(&ledger, &stranger, &tally);
    assert_eq!(ledger.apply_fragment(&f, date(2, 0)), Err(Error::CertificateInvalidSignature));
    assert!(matches!(
        ledger.ledger.votes.manager(&id).unwrap().status(),
        ManagerStatus::Voting
    ));
}

#[test]
fn header_descriptions_are_compared_by_identifier() {
    let a = HeaderDesc { id: Digest::digest_byteslice(b"a") };
    let b = HeaderDesc { id: Digest::digest_byteslice(b"b") };
    assert!(are_desc_equal(a, a));
    assert!(!are_desc_equal(a, b));
}

#[test]
fn accepted_actions_move_the_funds_of_the_ledger() {
    let voter = Wallet::from_value(Value(10));
    let mut member = Wallet::from_value(Value(0));
    let committee = vec![CommitteeId::from_public_key(member.public_key())];
    let mut ledger = ledger_with(vec![&voter, &member], LinearFee::new(0, 0, 0), committee);
    ledger.ledger.treasury = Value(100);
    let action = VoteAction::Treasury {
        action: TreasuryGovernanceAction::TransferToRewards { value: Value(30) },
    };
    let mut proposals = Proposals::new();
    proposals.push(Proposal::new(
        Digest::digest_byteslice(b"p"),
        Options::new_length(3).unwrap(),
        action,
    ));
    let plan = VotePlan::new(
        date(1, 0),
        date(2, 0),
        date(3, 0),
        proposals,
        PayloadType::Public,
        Vec::new(),
    );
    let id = plan.to_id();
    let apply = |ledger: &mut TestLedger, who: &Wallet, cert: Certificate, at: BlockDate| {
        let f = TestTxCertBuilder::new(ledger.block0_hash, ledger.fee())
            .make_transaction(ledger.date(), &[*who], &cert);
        ledger.apply_fragment(&f, at)
    };
    assert_eq!(apply(&mut ledger, &member, Certificate::VotePlan(plan), date(0, 0)), Ok(()));
    let cast = VoteCast::new(id, 0, Payload::public(Choice::new(1)));
    assert_eq!(apply(&mut ledger, &voter, Certificate::VoteCast(cast), date(1, 0)), Ok(()));
    // the member has spent once: a witness for the old counter is refused
    let tally = || Certificate::VoteTally(VoteTally::new_public(id));
    assert_eq!(
        apply(&mut ledger, &member, tally(), date(2, 0)),
        Err(Error::AccountInvalidSignature)
    );
    assert_eq!(ledger.ledger.treasury, Value(100));
    member.confirm_transaction();
    assert_eq!(apply(&mut ledger, &member, tally(), date(2, 0)), Ok(()));
    assert_eq!(ledger.ledger.treasury, Value(70));
    assert_eq!(ledger.ledger.rewards, Value(30));
    assert!(matches!(
        ledger.ledger.votes.manager(&id).unwrap().status(),
        ManagerStatus::Finished { .. }
    ));
    // a finished plan is not tallied again
    member.confirm_transaction();
    assert!(matches!(
        apply(&mut ledger, &member, tally(), date(2, 0)),
        Err(Error::VotePlan { .. })
    ));
    assert_eq!(ledger.ledger.treasury, Value(70));
}
