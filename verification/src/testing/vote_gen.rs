//! Vote plans, proposals and votes to try the ledger with.

use crate::ballot::is_honest_ballot;
use crate::certificate::vote_cast::{VoteCast};
use crate::certificate::vote_plan::{
    ExternalProposalId, Proposal, Proposals, VoteAction, VotePlan, VotePlanView,
    MAX_COMMITTEE_KEYS, MAX_PROPOSALS,
};
use crate::certificate::vote_tally::VoteTally;
use crate::committee::{crs_from_hash, member_key_values, Crs, ElectionPublicKey};
use crate::date::BlockDate;

use crate::hash::Digest;
use crate::ledger::governance::{
    default_criteria, GovernanceAcceptanceCriteria, ParametersGovernance, TreasuryGovernance,
};
use crate::rng::seeded;
use crate::testing::data::{CommitteeMembersManager, TestGen};
use crate::unit_vector::UnitVector;
use crate::vote::choice::{Choice, Options};
use crate::vote::manager::plan_election_key;
use crate::vote::payload::{Payload, PayloadType, PayloadView};
use rand_chacha::ChaCha20Rng;
use vstd::prelude::*;

verus! {

/// Makes vote plans, proposals and votes.
pub struct VoteTestGen;

/// Whether the first `count` proposals have four options and the given
/// action.
pub open spec fn generated_proposals(s: Seq<Proposal>, action: VoteAction, count: nat) -> bool {
    &&& s.len() == count
    &&& forall|i: int| 0 <= i < s.len() ==> (#[trigger] s[i]).options@ == 4 && s[i].action == action
}

/// Whether a plan is one of those generated: voting from epoch one to epoch
/// two, the committee's time to epoch three, `count` proposals of four
/// options without an action on the chain.
pub open spec fn generated_plan(p: VotePlanView, payload_type: PayloadType, count: nat) -> bool {
    &&& p.vote_start == (BlockDate { epoch: 1, slot_id: 0 })
    &&& p.vote_end == (BlockDate { epoch: 2, slot_id: 0 })
    &&& p.committee_end == (BlockDate { epoch: 3, slot_id: 0 })
    &&& p.payload_type == payload_type
    &&& generated_proposals(p.proposals, VoteAction::OffChain, count)
}

impl VoteTestGen {
    /// A proposal of four options with the given action and an identifier
    /// drawn from the thread's generator.
    pub fn proposal_with_action(vote_action: VoteAction) -> (r: Proposal)
        ensures
            r.options@ == 4,
            r.action == vote_action,
    {
        let options = match Options::new_length(4) {
            Ok(o) => o,
            Err(_) => vstd::pervasive::unreached(),
        };
        Proposal::new(VoteTestGen::external_proposal_id(), options, vote_action)
    }

    /// A proposal of four options without an action on the chain.
    pub fn proposal() -> (r: Proposal)
        ensures
            r.options@ == 4,
            r.action == VoteAction::OffChain,
    {
        VoteTestGen::proposal_with_action(VoteAction::OffChain)
    }

    /// `count` proposals of four options without an action on the chain.
    pub fn proposals(count: usize) -> (r: Proposals)
        requires
            count <= MAX_PROPOSALS,
        ensures
            generated_proposals(r@, VoteAction::OffChain, count as nat),
    {
        VoteTestGen::proposals_with_action(VoteAction::OffChain, count)
    }

    /// `count` proposals of four options with the given action.
    pub fn proposals_with_action(vote_action: VoteAction, count: usize) -> (r: Proposals)
        requires
            count <= MAX_PROPOSALS,
        ensures
            generated_proposals(r@, vote_action, count as nat),
    {
        let mut proposals = Proposals::new();
        let mut i: usize = 0;
        while i < count
            invariant
                i <= count,
                count <= MAX_PROPOSALS,
                generated_proposals(proposals@, vote_action, i as nat),
            decreases count - i,
        {
            let _pushed = proposals.push(VoteTestGen::proposal_with_action(vote_action));
            i = i + 1;
        }
        proposals
    }

    /// An identifier of a proposal: the digest of bytes of the thread's
    /// generator.
    pub fn external_proposal_id() -> (r: ExternalProposalId)
        ensures
            r@.len() == 32,
    {
        let bytes = TestGen::bytes().to_bytes();
        let r = Digest::digest_byteslice(bytes.as_slice());
        proof {
            r.lemma_len();
        }
        r
    }

    /// A vote in the open for choice one on the first proposal of a
    /// generated plan.
    pub fn vote_cast() -> (r: VoteCast)
        ensures
            r@.proposal_index == 0,
            r@.payload == (PayloadView::Public { choice: 1 }),
    {
        let vote_plan = VoteTestGen::vote_plan();
        VoteCast::new(vote_plan.to_id(), 0, Payload::public(Choice::new(1)))
    }

    /// A tally in the open of a generated plan.
    pub fn vote_tally() -> (r: VoteTally)
        ensures
            r.tally_type_spec() == PayloadType::Public,
    {
        let vote_plan = VoteTestGen::vote_plan();
        VoteTally::new_public(vote_plan.to_id())
    }

    /// A plan voted in the open, with three proposals.
    pub fn vote_plan() -> (r: VotePlan)
        ensures
            generated_plan(r@, PayloadType::Public, 3),
            r@.committee_public_keys.len() == 0,
            r.well_formed(),
    {
        VoteTestGen::vote_plan_with_proposals(3)
    }

    /// A committee of `members_no` members with the given threshold, set up
    /// from a fixed seed.
    pub fn committee_members_manager(members_no: usize, threshold: usize) -> (r:
        CommitteeMembersManager)
        requires
            0 < threshold <= members_no,
            threshold < usize::MAX,
        ensures
            r.secrets().len() == members_no,
            r.threshold_spec() == threshold,
    {
        let crs_seed =
            "This should be a shared seed among the different committee members. Could be the id of the previous VotePlan";
        let zero = zero_seed();
        let mut rng = seeded(zero.as_slice());
        CommitteeMembersManager::new(&mut rng, crs_seed.as_bytes(), threshold, members_no)
    }

    /// A plan voted encrypted, with three proposals and a committee of
    /// three.
    pub fn private_vote_plan() -> (r: VotePlan)
        ensures
            generated_plan(r@, PayloadType::Private, 3),
            r@.committee_public_keys.len() == 3,
            r.well_formed(),
    {
        VoteTestGen::private_vote_plan_with_committees_manager(
            &VoteTestGen::committee_members_manager(3, 1),
        )
    }

    /// A plan voted encrypted, with three proposals and the keys of the
    /// given committee.
    pub fn private_vote_plan_with_committees_manager(manager: &CommitteeMembersManager) -> (r:
        VotePlan)
        requires
            manager.secrets().len() <= MAX_COMMITTEE_KEYS,
        ensures
            generated_plan(r@, PayloadType::Private, 3),
            r@.committee_public_keys == crate::tally_laws::public_shares(manager.secrets()),
            r.well_formed(),
    {
        let keys = manager.public_keys();
        proof {
            assert(member_key_values(keys@).len() == keys@.len());
        }
        VotePlan::new(
            BlockDate::from_epoch_slot_id(1, 0),
            BlockDate::from_epoch_slot_id(2, 0),
            BlockDate::from_epoch_slot_id(3, 0),
            VoteTestGen::proposals(3),
            PayloadType::Private,
            keys,
        )
    }

    /// A plan voted in the open, with `count` proposals.
    pub fn vote_plan_with_proposals(count: usize) -> (r: VotePlan)
        requires
            count <= MAX_PROPOSALS,
        ensures
            generated_plan(r@, PayloadType::Public, count as nat),
            r@.committee_public_keys.len() == 0,
            r.well_formed(),
    {
        VotePlan::new(
            BlockDate::from_epoch_slot_id(1, 0),
            BlockDate::from_epoch_slot_id(2, 0),
            BlockDate::from_epoch_slot_id(3, 0),
            VoteTestGen::proposals(count),
            PayloadType::Public,
            Vec::new(),
        )
    }

    /// The payload of a vote in the open for the given choice.
    pub fn vote_cast_payload_for(choice: &Choice) -> (r: Payload)
        ensures
            r@ == (PayloadView::Public { choice: choice@ }),
    {
        Payload::public(*choice)
    }

    /// The payload of an encrypted vote for the given choice on a proposal
    /// of a plan: encrypted to the election key of the plan, with a proof in
    /// the context of the plan's identifier.
    pub fn private_vote_cast_payload_for(
        vote_plan: &VotePlan,
        proposal: &Proposal,
        choice: Choice,
        rng: &mut ChaCha20Rng,
    ) -> (r: Payload)
        requires
            (choice@ as nat) < proposal.options@,
        ensures
            r@ matches PayloadView::Private { encrypted_vote, proof } && encrypted_vote.len()
                == proposal.options@ && crate::shvzk::verify_spec(
                crs_from_hash(crate::certificate::vote_plan::vote_plan_id(vote_plan@)),
                plan_election_key(vote_plan@),
                encrypted_vote,
                proof,
            ) && is_honest_ballot(
                crs_from_hash(crate::certificate::vote_plan::vote_plan_id(vote_plan@)),
                plan_election_key(vote_plan@),
                crate::unit_vector::UnitVectorView {
                    size: proposal.options@,
                    ith: choice@ as nat,
                },
                encrypted_vote,
                proof,
            ),
    {
        let encrypting_key = ElectionPublicKey::from_participants(
            vote_plan.committee_public_keys().as_slice(),
        );
        let id = vote_plan.to_id().to_bytes();
        let crs = Crs::from_hash(id.as_slice());
        let options = proposal.options().as_byte() as usize;
        let vote = UnitVector::new(options, choice.as_byte() as usize);
        let (encrypted_vote, proof) = encrypting_key.encrypt_and_prove_vote(rng, &crs, vote);
        Payload::private(encrypted_vote, proof)
    }

    /// The payload of a vote in the open for choice one.
    pub fn vote_cast_payload() -> (r: Payload)
        ensures
            r@ == (PayloadView::Public { choice: 1 }),
    {
        Payload::public(Choice::new(1))
    }

    /// A vote in the open for choice one on the first proposal of the plan.
    pub fn vote_cast_for(vote_plan: &VotePlan) -> (r: VoteCast)
        ensures
            r@.vote_plan@ == crate::certificate::vote_plan::vote_plan_id(vote_plan@),
            r@.proposal_index == 0,
            r@.payload == (PayloadView::Public { choice: 1 }),
    {
        VoteCast::new(vote_plan.to_id(), 0, VoteTestGen::vote_cast_payload())
    }

    /// Treasury governance with the default criteria.
    pub fn treasury_governance() -> (r: TreasuryGovernance)
        ensures
            r.default_criteria() == default_criteria(),
            r.transfer_to_rewards_criteria() is None,
    {
        let mut governance = TreasuryGovernance::new();
        governance.set_default_acceptance_criteria(GovernanceAcceptanceCriteria::default());
        governance
    }

    /// Parameters governance with the default criteria.
    pub fn parameters_governance() -> (r: ParametersGovernance)
        ensures
            r.default_criteria() == default_criteria(),
            r.reward_add_criteria() is None,
    {
        let mut governance = ParametersGovernance::new();
        governance.set_default_acceptance_criteria(GovernanceAcceptanceCriteria::default());
        governance
    }
}

/// Thirty-two zero bytes.
pub fn zero_seed() -> (r: Vec<u8>)
    ensures
        r@.len() == 32,
        forall|i: int| 0 <= i < 32 ==> r@[i] == 0,
{
    let mut out: Vec<u8> = Vec::new();
    let mut i: usize = 0;
    while i < 32
        invariant
            i <= 32,
            out@.len() == i,
            forall|k: int| 0 <= k < i ==> out@[k] == 0,
        decreases 32 - i,
    {
        out.push(0);
        i = i + 1;
    }
    out
}

} // verus!
