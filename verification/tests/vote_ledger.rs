use chain_vote::certificate::{
    DecryptedPrivateTally, EncryptedVoteTally, MemberShares, Proposal, Proposals, PushProposal,
    TallyProof, TreasuryGovernanceAction, VoteAction, VoteCast, VotePlan, VoteTally,
};
use chain_vote::date::BlockDate;
use chain_vote::hash::Digest;
use chain_vote::key::{EitherEd25519SecretKey, Signature};
use chain_vote::ledger::{Governance, GovernanceAcceptanceCriteria, Ratio};
use chain_vote::persistent::{InsertError, UpdateError};
use rand_chacha::ChaCha20Rng;
use rand_core::SeedableRng;
use chain_vote::stake::{StakeControl, UnspecifiedAccountIdentifier};
use chain_vote::testing::{CommitteeMembersManager, VoteTestGen};
use chain_vote::value::Value;
use chain_vote::vote::{
    Choice, CommitteeId, ManagerStatus, Options, Payload, PayloadType, VoteError,
    VotePlanLedger, VotePlanLedgerError, VotePlanManager,
};

fn date(epoch: u32, slot: u32) -> BlockDate {
    BlockDate::from_epoch_slot_id(epoch, slot)
}

fn account(n: u8) -> UnspecifiedAccountIdentifier {
    UnspecifiedAccountIdentifier(Digest::digest_byteslice(&[n]))
}

fn member(n: u8) -> CommitteeId {
    CommitteeId(Digest::digest_byteslice(&[0xc0, n]))
}

fn signature() -> Signature {
    EitherEd25519SecretKey::from_seed(Digest::digest_byteslice(b"k")).sign_slice(b"m")
}

fn stake(entries: &[(u8, u64)]) -> StakeControl {
    let mut s = StakeControl::new();
    for (who, amount) in entries {
        s = s.add_to(account(*who), *amount);
    }
    s
}

fn public_plan(options: u8, action: VoteAction) -> VotePlan {
    let mut proposals = Proposals::new();
    let p = Proposal::new(
        Digest::digest_byteslice(b"proposal"),
        Options::new_length(options).unwrap(),
        action,
    );
    assert_eq!(proposals.push(p), PushProposal::Success);
    VotePlan::new(
        date(1, 0),
        date(2, 0),
        date(3, 0),
        proposals,
        PayloadType::Public,
        Vec::new(),
    )
}

fn results(manager: &VotePlanManager) -> Vec<Vec<Option<u64>>> {
    match manager.status() {
        ManagerStatus::Finished { results } => results.iter().map(|r| r.votes.clone()).collect(),
        _ => panic!("the plan is not finished"),
    }
}

#[test]
fn add_plan_already_ended() {
    let ledger = VotePlanLedger::new();
    let plan = VoteTestGen::vote_plan();
    let r = ledger.add_vote_plan(date(2, 1), plan, vec![]);
    assert_eq!(
        r.err(),
        Some(VotePlanLedgerError::VotePlanVoteEndPassed {
            current_date: date(2, 1),
            vote_end: date(2, 0),
        })
    );
}

#[test]
fn add_plan_already_started() {
    let ledger = VotePlanLedger::new();
    let r = ledger.add_vote_plan(date(1, 1), VoteTestGen::vote_plan(), vec![]);
    assert_eq!(
        r.err(),
        Some(VotePlanLedgerError::VotePlanVoteStartStartedAlready {
            current_date: date(1, 1),
            vote_start: date(1, 0),
        })
    );
    // at the start itself the plan is still accepted
    assert!(ledger
        .add_vote_plan(date(1, 0), VoteTestGen::vote_plan(), vec![])
        .is_ok());
}

#[test]
fn private_plan_with_empty_committee() {
    let ledger = VotePlanLedger::new();
    let plan = VotePlan::new(
        date(1, 0),
        date(2, 0),
        date(3, 0),
        VoteTestGen::proposals(1),
        PayloadType::Private,
        Vec::new(),
    );
    let r = ledger.add_vote_plan(date(0, 0), plan, vec![]);
    assert_eq!(
        r.err(),
        Some(VotePlanLedgerError::VotePlanMissingCommitteeMemberKey)
    );
}

#[test]
fn plan_with_dates_out_of_order_is_refused() {
    let ledger = VotePlanLedger::new();
    let plan = VotePlan::new(
        date(1, 0),
        date(3, 0),
        date(2, 0),
        VoteTestGen::proposals(1),
        PayloadType::Public,
        Vec::new(),
    );
    assert_eq!(
        ledger.add_vote_plan(date(0, 0), plan, vec![]).err(),
        Some(VotePlanLedgerError::VotePlanInvalidDates {
            vote_start: date(1, 0),
            vote_end: date(3, 0),
            committee_end: date(2, 0),
        })
    );
}

#[test]
fn the_same_plan_is_not_added_twice() {
    let plan = public_plan(3, VoteAction::OffChain);
    let id = plan.to_id();
    let ledger = VotePlanLedger::new()
        .add_vote_plan(date(0, 0), plan.clone(), vec![])
        .unwrap();
    assert_eq!(
        ledger.add_vote_plan(date(0, 0), plan, vec![]).err(),
        Some(VotePlanLedgerError::VotePlanInsertionError {
            id,
            reason: InsertError::EntryExists,
        })
    );
}

#[test]
fn ledger_versions_do_not_alter_each_other() {
    let empty = VotePlanLedger::new();
    let plan = public_plan(3, VoteAction::OffChain);
    let id = plan.to_id();
    let with_plan = empty.add_vote_plan(date(0, 0), plan, vec![]).unwrap();
    assert!(!empty.contains(&id));
    assert!(with_plan.contains(&id));
    assert!(empty.manager(&id).is_none());

    let cast = VoteCast::new(id, 0, Payload::public(Choice::new(2)));
    let voted = with_plan
        .apply_vote(date(1, 5), account(1), &stake(&[(1, 10)]), cast)
        .unwrap();
    // the vote is in the new version only
    let other = VoteCast::new(id, 0, Payload::public(Choice::new(1)));
    let voted_otherwise = with_plan
        .apply_vote(date(1, 6), account(1), &stake(&[(1, 4)]), other)
        .unwrap();
    assert!(matches!(
        with_plan.manager(&id).unwrap().status(),
        ManagerStatus::Voting
    ));
    assert!(voted.contains(&id) && voted_otherwise.contains(&id));
    assert!(!empty.contains(&id));
}

fn public_election(votes: &[(u8, u8, u64)], action: VoteAction) -> (Vec<Option<u64>>, Vec<VoteAction>) {
    let plan = public_plan(3, action);
    let id = plan.to_id();
    let mut ledger = VotePlanLedger::new()
        .add_vote_plan(date(0, 0), plan, vec![member(1)])
        .unwrap();
    for (who, choice, weight) in votes {
        let cast = VoteCast::new(id, 0, Payload::public(Choice::new(*choice)));
        ledger = ledger
            .apply_vote(date(1, 0), account(*who), &stake(&[(*who, *weight)]), cast)
            .unwrap();
    }
    let (after, actions) = ledger
        .apply_committee_result(
            date(2, 0),
            &stake(&[(1, 100)]),
            &Governance::new(),
            &VoteTally::new_public(id),
            TallyProof::Public { id: member(1), signature: signature() },
        )
        .unwrap();
    (results(after.manager(&id).unwrap())[0].clone(), actions)
}

#[test]
fn double_vote_overwrite() {
    let (votes, _) = public_election(&[(1, 0, 10), (1, 1, 10)], VoteAction::OffChain);
    assert_eq!(votes, vec![Some(0), Some(10), Some(0)]);
    // another account does not overwrite
    let (votes, _) = public_election(&[(1, 0, 10), (2, 1, 7), (1, 2, 3)], VoteAction::OffChain);
    assert_eq!(votes, vec![Some(0), Some(7), Some(3)]);
}

#[test]
fn accepted_proposals_hand_their_action_out() {
    let action = VoteAction::Treasury {
        action: TreasuryGovernanceAction::TransferToRewards { value: Value(5) },
    };
    // choice one is favorable, choice two rejects
    let (votes, actions) = public_election(&[(1, 1, 6), (2, 2, 5)], action);
    assert_eq!(votes, vec![Some(0), Some(6), Some(5)]);
    assert_eq!(actions, vec![action]);
    let (_, actions) = public_election(&[(1, 1, 5), (2, 2, 5)], action);
    assert_eq!(actions, vec![]);
    let (_, actions) = public_election(&[(1, 1, 6), (2, 2, 5)], VoteAction::OffChain);
    assert_eq!(actions, vec![]);
}

#[test]
fn acceptance_criteria_are_checked() {
    let default = GovernanceAcceptanceCriteria::default();
    assert!(default.accepts(100, &vec![0, 2, 1]));
    assert!(!default.accepts(100, &vec![0, 1, 1]));
    assert!(!default.accepts(100, &vec![5, 0, 0]));
    assert!(!default.accepts(100, &vec![0, 2]));
    let half = Some(Ratio { numerator: 1, denominator: 2 });
    let participation = GovernanceAcceptanceCriteria {
        minimum_stake_participation: half,
        ..default
    };
    assert!(participation.accepts(100, &vec![10, 30, 10]));
    assert!(!participation.accepts(100, &vec![10, 30, 9]));
    let approval = GovernanceAcceptanceCriteria { minimum_approval: half, ..default };
    assert!(approval.accepts(1000, &vec![10, 20, 10]));
    assert!(!approval.accepts(1000, &vec![11, 20, 10]));
    assert!(approval.accepts(0, &vec![0, u64::MAX, u64::MAX - 1]));
}

#[test]
fn votes_are_gated_by_time_and_plan() {
    let plan = public_plan(3, VoteAction::OffChain);
    let id = plan.to_id();
    let ledger = VotePlanLedger::new()
        .add_vote_plan(date(0, 0), plan, vec![member(1)])
        .unwrap();
    let s = stake(&[(1, 10)]);
    let cast = |index: u8, choice: u8| VoteCast::new(id, index, Payload::public(Choice::new(choice)));
    let refused = |at: BlockDate, c: VoteCast| match ledger.apply_vote(at, account(1), &s, c) {
        Err(VotePlanLedgerError::VoteError { id: i, reason: UpdateError::ValueCallbackError(e) }) => {
            assert_eq!(i, id);
            e
        }
        _ => panic!("the vote should be refused by the manager"),
    };
    let not_time = |provided| VoteError::NotVoteTime { start: date(1, 0), end: date(2, 0), provided };
    assert_eq!(refused(date(2, 1), cast(0, 1)), not_time(date(2, 1)));
    assert_eq!(refused(date(0, 9), cast(0, 1)), not_time(date(0, 9)));
    assert!(ledger.apply_vote(date(2, 0), account(1), &s, cast(0, 1)).is_ok());
    assert!(ledger.apply_vote(date(1, 0), account(1), &s, cast(0, 1)).is_ok());
    assert_eq!(
        refused(date(1, 0), cast(1, 1)),
        VoteError::InvalidVoteProposal { num_proposals: 1, proposal_index: 1 }
    );
    assert_eq!(
        refused(date(1, 0), cast(0, 3)),
        VoteError::InvalidChoice {
            options: Options::new_length(3).unwrap(),
            choice: Choice::new(3),
        }
    );
    let unknown = Digest::digest_byteslice(b"no such plan");
    let c = VoteCast::new(unknown, 0, Payload::public(Choice::new(1)));
    assert_eq!(
        ledger.apply_vote(date(1, 0), account(1), &s, c).err(),
        Some(VotePlanLedgerError::VoteError { id: unknown, reason: UpdateError::KeyNotFound })
    );
    // the manager itself refuses a vote that names another plan
    let manager = ledger.manager(&id).unwrap();
    let c = VoteCast::new(unknown, 0, Payload::public(Choice::new(1)));
    assert_eq!(
        manager.vote(date(1, 0), account(1), &s, c).err(),
        Some(VoteError::InvalidVotePlan { expected: id, received: unknown })
    );
}

#[test]
fn tally_in_the_open_is_gated() {
    let plan = public_plan(3, VoteAction::OffChain);
    let id = plan.to_id();
    let ledger = VotePlanLedger::new()
        .add_vote_plan(date(0, 0), plan, vec![member(1)])
        .unwrap();
    let s = stake(&[(1, 10)]);
    let g = Governance::new();
    let tally = VoteTally::new_public(id);
    let public = |who: u8| TallyProof::Public { id: member(who), signature: signature() };
    let refused = |at: BlockDate, proof: TallyProof| match ledger
        .apply_committee_result(at, &s, &g, &tally, proof)
    {
        Err(VotePlanLedgerError::VoteError { reason: UpdateError::ValueCallbackError(e), .. }) => e,
        _ => panic!("the tally should be refused by the manager"),
    };
    let not_time =
        |provided| VoteError::NotCommitteeTime { start: date(2, 0), end: date(3, 0), provided };
    assert_eq!(refused(date(1, 9), public(1)), not_time(date(1, 9)));
    assert_eq!(refused(date(3, 1), public(1)), not_time(date(3, 1)));
    assert_eq!(refused(date(2, 5), public(2)), VoteError::InvalidTallyCommittee);
    assert_eq!(
        refused(date(2, 5), TallyProof::Private { id: member(1), signature: signature() }),
        VoteError::InvalidPayloadType {
            expected: PayloadType::Private,
            received: PayloadType::Public,
        }
    );
    let start = EncryptedVoteTally::new(id);
    assert_eq!(
        ledger.apply_encrypted_vote_tally(date(2, 5), &s, &start, member(1)).err(),
        Some(VotePlanLedgerError::VoteError {
            id,
            reason: UpdateError::ValueCallbackError(VoteError::PrivateTallyExpected),
        })
    );
    let (done, _) = ledger.apply_committee_result(date(3, 0), &s, &g, &tally, public(1)).unwrap();
    // a finished plan takes no votes and no second tally
    let cast = VoteCast::new(id, 0, Payload::public(Choice::new(1)));
    assert_eq!(
        done.apply_vote(date(2, 0), account(1), &s, cast).err(),
        Some(VotePlanLedgerError::VoteError {
            id,
            reason: UpdateError::ValueCallbackError(VoteError::VotingClosed),
        })
    );
    assert_eq!(
        done.apply_committee_result(date(3, 0), &s, &g, &tally, public(1)).err(),
        Some(VotePlanLedgerError::VoteError {
            id,
            reason: UpdateError::ValueCallbackError(VoteError::VotingClosed),
        })
    );
    // weights that do not fit in 64 bits cannot be tallied
    let mut heavy = ledger.share();
    for who in [1u8, 2] {
        let cast = VoteCast::new(id, 0, Payload::public(Choice::new(1)));
        heavy = heavy
            .apply_vote(date(1, 0), account(who), &stake(&[(who, u64::MAX)]), cast)
            .unwrap();
    }
    assert_eq!(
        heavy.apply_committee_result(date(3, 0), &s, &g, &tally, public(1)).err(),
        Some(VotePlanLedgerError::VoteError {
            id,
            reason: UpdateError::ValueCallbackError(VoteError::TallyOverflow),
        })
    );
}

struct PrivateElection {
    committee: CommitteeMembersManager,
    ids: Vec<CommitteeId>,
    plan: VotePlan,
    ledger: VotePlanLedger,
}

fn private_election(members: usize, votes: &[(u8, u8, u64)]) -> PrivateElection {
    let committee = VoteTestGen::committee_members_manager(members, members);
    let plan = VoteTestGen::private_vote_plan_with_committees_manager(&committee);
    let id = plan.to_id();
    let ids: Vec<CommitteeId> = (0..members as u8).map(member).collect();
    let mut ledger = VotePlanLedger::new()
        .add_vote_plan(date(0, 0), plan.clone(), ids.clone())
        .unwrap();
    let mut rng = ChaCha20Rng::from_seed([9u8; 32]);
    let proposal = plan.proposals().get(0).unwrap();
    for (who, choice, weight) in votes {
        let payload = VoteTestGen::private_vote_cast_payload_for(
            &plan,
            &proposal,
            Choice::new(*choice),
            &mut rng,
        );
        let cast = VoteCast::new(id, 0, payload);
        ledger = ledger
            .apply_vote(date(1, 0), account(*who), &stake(&[(*who, *weight)]), cast)
            .unwrap();
    }
    PrivateElection { committee, ids, plan, ledger }
}

fn shares_of(e: &PrivateElection, ledger: &VotePlanLedger, members: &[usize]) -> DecryptedPrivateTally {
    let manager = ledger.manager(&e.plan.to_id()).unwrap();
    DecryptedPrivateTally {
        members: members
            .iter()
            .map(|m| MemberShares {
                member: e.ids[*m],
                shares: (0..e.plan.proposals().len())
                    .map(|p| {
                        manager
                            .encrypted_tally(p)
                            .unwrap()
                            .finish(e.committee.members()[*m].secret_key())
                            .1
                    })
                    .collect(),
            })
            .collect(),
    }
}

#[test]
fn private_election_with_three_members() {
    let e = private_election(3, &[(1, 0, 1), (2, 1, 3), (3, 0, 4)]);
    let id = e.plan.to_id();
    let s = stake(&[(1, 1), (2, 3), (3, 4)]);
    let started = e
        .ledger
        .apply_encrypted_vote_tally(date(2, 0), &s, &EncryptedVoteTally::new(id), e.ids[1])
        .unwrap();
    assert!(matches!(
        started.manager(&id).unwrap().status(),
        ManagerStatus::TallyStarted
    ));
    let private = |who: usize| TallyProof::Private { id: e.ids[who], signature: signature() };
    let g = Governance::new();
    let finalize = |ledger: &VotePlanLedger, members: &[usize]| {
        let tally = VoteTally::new_private(id, shares_of(&e, ledger, members));
        ledger.apply_committee_result(date(2, 5), &s, &g, &tally, private(0))
    };
    let refused = |members: &[usize]| match finalize(&started, members) {
        Err(VotePlanLedgerError::VoteError { reason: UpdateError::ValueCallbackError(e), .. }) => e,
        _ => panic!("the tally should be refused"),
    };
    // fewer members than the committee has do not finish the plan
    assert_eq!(refused(&[0, 1]), VoteError::NotEnoughShares { threshold: 3, provided: 2 });
    assert_eq!(refused(&[]), VoteError::NotEnoughShares { threshold: 3, provided: 0 });
    assert_eq!(refused(&[0, 1, 1]), VoteError::InvalidDecryptShare);
    // before the tally is started it cannot be opened
    assert!(matches!(
        finalize(&e.ledger, &[0, 1, 2]),
        Err(VotePlanLedgerError::VoteError {
            reason: UpdateError::ValueCallbackError(VoteError::TallyNotStarted),
            ..
        })
    ));
    let (done, actions) = finalize(&started, &[2, 0, 1]).unwrap();
    assert_eq!(actions, vec![]);
    let r = results(done.manager(&id).unwrap());
    assert_eq!(r.len(), 3);
    assert_eq!(r[0], vec![Some(5), Some(3), Some(0), Some(0)]);
    assert_eq!(r[1], vec![Some(0); 4]);
    // the version before the tally still takes no part in it
    assert!(matches!(
        started.manager(&id).unwrap().status(),
        ManagerStatus::TallyStarted
    ));
    // a share with the wrong number of elements is refused
    let mut wrong = shares_of(&e, &started, &[0, 1, 2]);
    wrong.members[1].shares[0] =
        chain_vote::TallyDecryptShare::from_elements(vec![chain_vote::gang::GroupElement::zero()]);
    let tally = VoteTally::new_private(id, wrong);
    assert!(matches!(
        started.apply_committee_result(date(2, 5), &s, &g, &tally, private(0)),
        Err(VotePlanLedgerError::VoteError {
            reason: UpdateError::ValueCallbackError(VoteError::InvalidDecryptShare),
            ..
        })
    ));
}

#[test]
fn private_votes_are_overwritten_and_checked() {
    let e = private_election(1, &[(1, 0, 10), (2, 3, 2), (1, 1, 10)]);
    let id = e.plan.to_id();
    let s = stake(&[]);
    let started = e
        .ledger
        .apply_encrypted_vote_tally(date(2, 0), &s, &EncryptedVoteTally::new(id), e.ids[0])
        .unwrap();
    let tally = VoteTally::new_private(id, shares_of(&e, &started, &[0]));
    let proof = TallyProof::Private { id: e.ids[0], signature: signature() };
    let (done, _) = started
        .apply_committee_result(date(2, 0), &s, &Governance::new(), &tally, proof)
        .unwrap();
    assert_eq!(
        results(done.manager(&id).unwrap())[0],
        vec![Some(0), Some(10), Some(0), Some(2)]
    );

    // a vote in the open, a vote with a proof for another plan, a vote of too few options
    let refused = |payload: Payload| match e.ledger.apply_vote(
        date(1, 0),
        account(9),
        &s,
        VoteCast::new(id, 0, payload),
    ) {
        Err(VotePlanLedgerError::VoteError { reason: UpdateError::ValueCallbackError(e), .. }) => e,
        _ => panic!("the vote should be refused"),
    };
    assert_eq!(
        refused(Payload::public(Choice::new(0))),
        VoteError::InvalidPayloadType {
            expected: PayloadType::Private,
            received: PayloadType::Public,
        }
    );
    let mut rng = ChaCha20Rng::from_seed([3u8; 32]);
    let other_plan = VoteTestGen::private_vote_plan();
    let proposal = e.plan.proposals().get(0).unwrap();
    let foreign = VoteTestGen::private_vote_cast_payload_for(
        &other_plan,
        &proposal,
        Choice::new(0),
        &mut rng,
    );
    assert_eq!(refused(foreign), VoteError::VoteVerificationError);
    let honest =
        VoteTestGen::private_vote_cast_payload_for(&e.plan, &proposal, Choice::new(0), &mut rng);
    match honest {
        Payload::Private { encrypted_vote, proof } => {
            let short = encrypted_vote[..2].to_vec();
            assert_eq!(
                refused(Payload::private(short, proof.duplicate())),
                VoteError::VoteVerificationError
            );
            assert!(e
                .ledger
                .apply_vote(
                    date(1, 0),
                    account(9),
                    &s,
                    VoteCast::new(id, 0, Payload::private(encrypted_vote, proof)),
                )
                .is_ok());
        }
        _ => panic!("the payload should be encrypted"),
    }
    // the start of the tally is for committee members, in the committee's time, once
    let start = EncryptedVoteTally::new(id);
    let refused = |ledger: &VotePlanLedger, at: BlockDate, who: CommitteeId| match ledger
        .apply_encrypted_vote_tally(at, &s, &start, who)
    {
        Err(VotePlanLedgerError::VoteError { reason: UpdateError::ValueCallbackError(e), .. }) => e,
        _ => panic!("the start should be refused"),
    };
    assert_eq!(refused(&e.ledger, date(2, 0), member(7)), VoteError::InvalidTallyCommittee);
    assert_eq!(
        refused(&e.ledger, date(1, 0), e.ids[0]),
        VoteError::NotCommitteeTime { start: date(2, 0), end: date(3, 0), provided: date(1, 0) }
    );
    assert_eq!(refused(&started, date(2, 0), e.ids[0]), VoteError::VotingClosed);
    let public = TallyProof::Public { id: e.ids[0], signature: signature() };
    assert!(matches!(
        e.ledger.apply_committee_result(
            date(2, 0),
            &s,
            &Governance::new(),
            &VoteTally::new_public(id),
            public,
        ),
        Err(VotePlanLedgerError::VoteError {
            reason: UpdateError::ValueCallbackError(VoteError::PublicTallyExpected),
            ..
        })
    ));
}

#[test]
fn vote_plan_serialization_round_trips() {
    let plans = vec![
        VoteTestGen::vote_plan(),
        VoteTestGen::private_vote_plan(),
        VoteTestGen::vote_plan_with_proposals(0),
        public_plan(
            16,
            VoteAction::Treasury {
                action: TreasuryGovernanceAction::TransferToRewards { value: Value(u64::MAX) },
            },
        ),
    ];
    for plan in plans {
        let bytes = plan.serialize();
        assert_eq!(
            bytes.len(),
            26 + 43 * plan.proposals().len() + 1 + 8 * plan.committee_public_keys().len()
        );
        let back = VotePlan::from_bytes(&bytes).unwrap();
        assert_eq!(back, plan);
        assert_eq!(back.to_id(), plan.to_id());
        assert_eq!(Digest::digest_byteslice(&bytes), plan.to_id());
        for cut in 0..bytes.len() {
            assert!(VotePlan::from_bytes(&bytes[..cut]).is_none(), "cut at {}", cut);
        }
        let mut longer = bytes.clone();
        longer.push(0);
        assert!(VotePlan::from_bytes(&longer).is_none());
        let mut bad_type = bytes.clone();
        bad_type[24] = 3;
        assert!(VotePlan::from_bytes(&bad_type).is_none());
    }
    let bytes = VoteTestGen::vote_plan().serialize();
    assert_eq!(&bytes[..8], &[0, 0, 0, 1, 0, 0, 0, 0]);
    assert_eq!(&bytes[16..26], &[0, 0, 0, 3, 0, 0, 0, 0, 1, 3]);
    let mut no_options = bytes.clone();
    no_options[26 + 32] = 0;
    assert!(VotePlan::from_bytes(&no_options).is_none());
    let mut bad_action = bytes.clone();
    bad_action[26 + 33] = 9;
    assert!(VotePlan::from_bytes(&bad_action).is_none());
    // plans that differ have different identifiers
    assert_ne!(
        public_plan(3, VoteAction::OffChain).to_id(),
        public_plan(4, VoteAction::OffChain).to_id()
    );
}
