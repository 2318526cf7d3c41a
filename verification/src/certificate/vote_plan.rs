//! Vote plans: when votes are cast and tallied, on which proposals, how, and
//! by which committee the tally is opened.

use crate::codec::{be_bytes, push_be_bytes};
use crate::committee::{member_key_values, MemberPublicKey};
use crate::date::{date_le, BlockDate};
use crate::gang::is_member;
use crate::hash::{blake2b_256, copy_vec, Digest};
use crate::tally::{all_members, elements_bytes};

use crate::value::Value;
use crate::vote::choice::Options;
use crate::vote::payload::{payload_type_byte, PayloadType};
use vstd::prelude::*;

verus! {

/// Identifier of a vote plan: the digest of its serialization.
pub type VotePlanId = Digest;

/// Identifier of a proposal outside the chain.
pub type ExternalProposalId = Digest;

/// Largest number of proposals of a vote plan.
pub const MAX_PROPOSALS: usize = 255;

/// Largest number of committee keys of a vote plan.
pub const MAX_COMMITTEE_KEYS: usize = 255;

/// What the treasury does when a proposal is accepted.
#[derive(Clone, Copy, Debug, PartialEq, Eq, Hash, Structural)]
pub enum TreasuryGovernanceAction {
    NoOp,
    TransferToRewards { value: Value },
}

/// How the parameters change when a proposal is accepted.
#[derive(Clone, Copy, Debug, PartialEq, Eq, Hash, Structural)]
pub enum ParametersGovernanceAction {
    NoOp,
    RewardAdd { value: Value },
}

/// What follows on the chain when a proposal is accepted.
#[derive(Clone, Copy, Debug, PartialEq, Eq, Hash, Structural)]
pub enum VoteAction {
    /// Nothing on the chain follows from the vote.
    OffChain,
    /// The treasury acts.
    Treasury { action: TreasuryGovernanceAction },
    /// The parameters change.
    Parameters { action: ParametersGovernanceAction },
}

/// A proposal of a vote plan.
#[derive(Clone, Copy, Debug, PartialEq, Eq, Hash, Structural)]
pub struct Proposal {
    pub external_id: ExternalProposalId,
    pub options: Options,
    pub action: VoteAction,
}

/// The proposals of a vote plan, at most `MAX_PROPOSALS`.
#[derive(Debug, PartialEq, Eq, Hash)]
pub struct Proposals {
    proposals: Vec<Proposal>,
}

/// Whether a proposal was added.
#[derive(Clone, Copy, Debug, PartialEq, Eq, Structural)]
pub enum PushProposal {
    Success,
    Full { proposal: Proposal },
}

/// Encoding of an action: its kind, its variant and its value, ten bytes.
pub open spec fn action_bytes(a: VoteAction) -> Seq<u8> {
    match a {
        VoteAction::OffChain => seq![0u8, 0u8] + be_bytes(0),
        VoteAction::Treasury { action: TreasuryGovernanceAction::NoOp } => seq![1u8, 0u8]
            + be_bytes(0),
        VoteAction::Treasury { action: TreasuryGovernanceAction::TransferToRewards { value } } =>
            seq![1u8, 1u8] + be_bytes(value.0),
        VoteAction::Parameters { action: ParametersGovernanceAction::NoOp } => seq![2u8, 0u8]
            + be_bytes(0),
        VoteAction::Parameters { action: ParametersGovernanceAction::RewardAdd { value } } =>
            seq![2u8, 1u8] + be_bytes(value.0),
    }
}

/// Encoding of a proposal: its external identifier, the number of its
/// options and its action.
pub open spec fn proposal_bytes(p: Proposal) -> Seq<u8> {
    p.external_id@ + seq![p.options@ as u8] + action_bytes(p.action)
}

/// Encoding of a sequence of proposals, one after the other.
pub open spec fn proposals_bytes(s: Seq<Proposal>) -> Seq<u8>
    decreases s.len(),
{
    if s.len() == 0 {
        Seq::empty()
    } else {
        proposals_bytes(s.drop_last()) + proposal_bytes(s.last())
    }
}

/// The word that stands for a date: the epoch in the upper half, the slot in
/// the lower.
pub open spec fn date_word(d: BlockDate) -> u64 {
    ((d.epoch as u64) * 0x1_0000_0000 + (d.slot_id as u64)) as u64
}

impl VoteAction {
    /// Appends the encoding of the action.
    pub fn serialize_in(&self, out: &mut Vec<u8>)
        ensures
            final(out)@ == old(out)@ + action_bytes(*self),
    {
        let ghost before = out@;
        let (kind, variant, value): (u8, u8, u64) = match self {
            VoteAction::OffChain => (0, 0, 0),
            VoteAction::Treasury { action } => match action {
                TreasuryGovernanceAction::NoOp => (1, 0, 0),
                TreasuryGovernanceAction::TransferToRewards { value } => (1, 1, value.0),
            },
            VoteAction::Parameters { action } => match action {
                ParametersGovernanceAction::NoOp => (2, 0, 0),
                ParametersGovernanceAction::RewardAdd { value } => (2, 1, value.0),
            },
        };
        out.push(kind);
        out.push(variant);
        push_be_bytes(out, value);
        proof {
            assert(out@ =~= before + (seq![kind, variant] + be_bytes(value)));
        }
    }
}

impl Proposal {
    /// The proposal with the given identifier, options and action.
    pub fn new(external_id: ExternalProposalId, options: Options, action: VoteAction) -> (r:
        Proposal)
        ensures
            r == (Proposal { external_id, options, action }),
    {
        Proposal { external_id, options, action }
    }

    /// The identifier of the proposal outside the chain.
    pub fn external_id(&self) -> (r: ExternalProposalId)
        ensures
            r == self.external_id,
    {
        self.external_id
    }

    /// The options of the proposal.
    pub fn options(&self) -> (r: Options)
        ensures
            r == self.options,
    {
        self.options
    }

    /// What follows when the proposal is accepted.
    pub fn action(&self) -> (r: VoteAction)
        ensures
            r == self.action,
    {
        self.action
    }

    /// Appends the encoding of the proposal.
    pub fn serialize_in(&self, out: &mut Vec<u8>)
        ensures
            final(out)@ == old(out)@ + proposal_bytes(*self),
    {
        let ghost before = out@;
        let mut id = self.external_id.to_bytes();
        out.append(&mut id);
        out.push(self.options.as_byte());
        let ghost mid = out@;
        self.action.serialize_in(out);
        proof {
            assert(out@ =~= before + proposal_bytes(*self));
        }
    }
}

/// Whether the options of every proposal are valid.
pub open spec fn proposals_valid(s: Seq<Proposal>) -> bool {
    forall|i: int| 0 <= i < s.len() ==> (#[trigger] s[i]).options.is_valid()
}

impl View for Proposals {
    type V = Seq<Proposal>;

    closed spec fn view(&self) -> Seq<Proposal> {
        self.proposals@
    }
}

impl Clone for Proposals {
    fn clone(&self) -> (r: Proposals)
        ensures
            r@ == self@,
    {
        proof {
            use_type_invariant(self);
        }
        Proposals { proposals: copy_vec(&self.proposals) }
    }
}

impl Proposals {
    #[verifier::type_invariant]
    spec fn inv(self) -> bool {
        self.proposals@.len() <= MAX_PROPOSALS && proposals_valid(self.proposals@)
    }

    /// No proposals.
    pub fn new() -> (r: Proposals)
        ensures
            r@ == Seq::<Proposal>::empty(),
    {
        Proposals { proposals: Vec::new() }
    }

    /// Adds a proposal, unless `MAX_PROPOSALS` proposals are there already:
    /// then the proposal comes back.
    pub fn push(&mut self, proposal: Proposal) -> (r: PushProposal)
        ensures
            old(self)@.len() < MAX_PROPOSALS ==> r == PushProposal::Success && final(self)@ == old(
                self,
            )@.push(proposal),
            old(self)@.len() >= MAX_PROPOSALS ==> r == (PushProposal::Full { proposal })
                && final(self)@ == old(self)@,
    {
        proof {
            use_type_invariant(&*self);
        }
        if self.proposals.len() < MAX_PROPOSALS {
            let mut next = copy_vec(&self.proposals);
            let checked = proposal.options.as_byte();
            next.push(proposal);
            *self = Proposals { proposals: next };
            PushProposal::Success
        } else {
            PushProposal::Full { proposal }
        }
    }

    /// Number of proposals. There are at most `MAX_PROPOSALS`, and the
    /// options of each are valid.
    pub fn len(&self) -> (r: usize)
        ensures
            r == self@.len(),
            r <= MAX_PROPOSALS,
            proposals_valid(self@),
    {
        proof {
            use_type_invariant(self);
        }
        self.proposals.len()
    }

    /// The proposal at `index`.
    pub fn get(&self, index: usize) -> (r: Option<Proposal>)
        ensures
            match r {
                Some(p) => index < self@.len() && p == self@[index as int],
                None => index >= self@.len(),
            },
    {
        if index < self.proposals.len() {
            Some(self.proposals[index])
        } else {
            None
        }
    }

    /// Appends the encodings of the proposals, one after the other.
    pub fn serialize_in(&self, out: &mut Vec<u8>)
        ensures
            final(out)@ == old(out)@ + proposals_bytes(self@),
    {
        let ghost before = out@;
        let mut i: usize = 0;
        proof {
            assert(out@ =~= before + proposals_bytes(self@.subrange(0, 0)));
        }
        while i < self.proposals.len()
            invariant
                i <= self.proposals.len(),
                out@ == before + proposals_bytes(self@.subrange(0, i as int)),
            decreases self.proposals.len() - i,
        {
            let ghost mid = out@;
            self.proposals[i].serialize_in(out);
            proof {
                let next = self@.subrange(0, i + 1);
                assert(next.drop_last() =~= self@.subrange(0, i as int));
                assert(next.last() == self.proposals@[i as int]);
                assert(out@ =~= before + proposals_bytes(next));
            }
            i = i + 1;
        }
        proof {
            assert(self@.subrange(0, self.proposals.len() as int) =~= self@);
        }
    }
}

/// A vote plan.
#[derive(Debug, PartialEq, Eq, Hash)]
pub struct VotePlan {
    vote_start: BlockDate,
    vote_end: BlockDate,
    committee_end: BlockDate,
    proposals: Proposals,
    payload_type: PayloadType,
    committee_public_keys: Vec<MemberPublicKey>,
}

/// The abstract vote plan.
pub struct VotePlanView {
    pub vote_start: BlockDate,
    pub vote_end: BlockDate,
    pub committee_end: BlockDate,
    pub proposals: Seq<Proposal>,
    pub payload_type: PayloadType,
    pub committee_public_keys: Seq<nat>,
}

impl View for VotePlan {
    type V = VotePlanView;

    closed spec fn view(&self) -> VotePlanView {
        VotePlanView {
            vote_start: self.vote_start,
            vote_end: self.vote_end,
            committee_end: self.committee_end,
            proposals: self.proposals@,
            payload_type: self.payload_type,
            committee_public_keys: member_key_values(self.committee_public_keys@),
        }
    }
}

/// Canonical serialization of a vote plan: the three dates, the payload
/// type, the number of proposals and the proposals, the number of committee
/// keys and the keys.
pub open spec fn vote_plan_bytes(p: VotePlanView) -> Seq<u8> {
    be_bytes(date_word(p.vote_start)) + be_bytes(date_word(p.vote_end)) + be_bytes(
        date_word(p.committee_end),
    ) + seq![payload_type_byte(p.payload_type), p.proposals.len() as u8] + proposals_bytes(
        p.proposals,
    ) + seq![p.committee_public_keys.len() as u8] + elements_bytes(p.committee_public_keys)
}

/// The identifier of a vote plan.
pub open spec fn vote_plan_id(p: VotePlanView) -> Seq<u8> {
    blake2b_256(vote_plan_bytes(p))
}

/// Whether the plan fits its serialization: at most `MAX_PROPOSALS`
/// proposals and `MAX_COMMITTEE_KEYS` keys.
pub open spec fn vote_plan_fits(p: VotePlanView) -> bool {
    p.proposals.len() <= MAX_PROPOSALS && p.committee_public_keys.len() <= MAX_COMMITTEE_KEYS
}

/// Whether a plan can be serialized and read back: it fits its
/// serialization, the options of its proposals are valid, and its keys are
/// group elements.
pub open spec fn vote_plan_valid(p: VotePlanView) -> bool {
    vote_plan_fits(p) && proposals_valid(p.proposals) && all_members(p.committee_public_keys)
}

fn push_date(out: &mut Vec<u8>, d: BlockDate)
    ensures
        final(out)@ == old(out)@ + be_bytes(date_word(d)),
{
    let word: u64 = (d.epoch as u64) * 0x1_0000_0000 + (d.slot_id as u64);
    push_be_bytes(out, word);
}

impl Clone for VotePlan {
    fn clone(&self) -> (r: VotePlan)
        ensures
            r@ == self@,
    {
        proof {
            use_type_invariant(self);
        }
        VotePlan {
            vote_start: self.vote_start,
            vote_end: self.vote_end,
            committee_end: self.committee_end,
            proposals: self.proposals.clone(),
            payload_type: self.payload_type,
            committee_public_keys: copy_vec(&self.committee_public_keys),
        }
    }
}

impl VotePlan {
    #[verifier::type_invariant]
    spec fn inv(self) -> bool {
        self.committee_public_keys@.len() <= MAX_COMMITTEE_KEYS
    }

    /// A plan fits its serialization.
    pub proof fn lemma_fits(self)
        requires
            self.well_formed(),
        ensures
            vote_plan_fits(self@),
    {
    }

    /// A plan can be serialized and read back.
    pub proof fn lemma_valid(self)
        requires
            self.well_formed(),
        ensures
            vote_plan_valid(self@),
    {
        let keys = self@.committee_public_keys;
        assert forall|i: int| 0 <= i < keys.len() implies is_member(#[trigger] keys[i]) by {
            self.committee_public_keys@[i].0.pk.lemma_is_member();
        }
    }

    /// Whether the plan has at most `MAX_COMMITTEE_KEYS` keys and at most
    /// `MAX_PROPOSALS` proposals, each with valid options.
    pub closed spec fn well_formed(self) -> bool {
        self.inv() && self.proposals@.len() <= MAX_PROPOSALS && proposals_valid(self.proposals@)
    }

    /// The plan with the given dates, proposals, payload type and committee
    /// keys.
    ///
    /// The serialization of a plan holds the number of its committee keys in
    /// one byte, so a plan has at most `MAX_COMMITTEE_KEYS` of them.
    pub fn new(
        vote_start: BlockDate,
        vote_end: BlockDate,
        committee_end: BlockDate,
        proposals: Proposals,
        payload_type: PayloadType,
        committee_public_keys: Vec<MemberPublicKey>,
    ) -> (r: VotePlan)
        requires
            committee_public_keys@.len() <= MAX_COMMITTEE_KEYS,
        ensures
            r@ == (VotePlanView {
                vote_start,
                vote_end,
                committee_end,
                proposals: proposals@,
                payload_type,
                committee_public_keys: member_key_values(committee_public_keys@),
            }),
            r.well_formed(),
    {
        let ghost n = proposals@.len();
        let checked = proposals.len();
        VotePlan {
            vote_start,
            vote_end,
            committee_end,
            proposals,
            payload_type,
            committee_public_keys,
        }
    }

    /// Every plan is well formed.
    pub fn check_well_formed(&self)
        ensures
            self.well_formed(),
    {
        proof {
            use_type_invariant(self);
        }
        let checked = self.proposals.len();
    }

    /// A copy of the plan.
    pub fn clone_plan(&self) -> (r: VotePlan)
        ensures
            r@ == self@,
            r.well_formed() == self.well_formed(),
    {
        proof {
            use_type_invariant(self);
        }
        let proposals = self.proposals.clone();
        let checked = proposals.len();
        VotePlan {
            vote_start: self.vote_start,
            vote_end: self.vote_end,
            committee_end: self.committee_end,
            proposals,
            payload_type: self.payload_type,
            committee_public_keys: copy_vec(&self.committee_public_keys),
        }
    }

    /// When voting starts.
    pub fn vote_start(&self) -> (r: BlockDate)
        ensures
            r == self@.vote_start,
    {
        self.vote_start
    }

    /// When voting ends and the committee's time starts.
    pub fn vote_end(&self) -> (r: BlockDate)
        ensures
            r == self@.vote_end,
    {
        self.vote_end
    }

    /// When the committee's time ends.
    pub fn committee_end(&self) -> (r: BlockDate)
        ensures
            r == self@.committee_end,
    {
        self.committee_end
    }

    /// The proposals.
    pub fn proposals(&self) -> (r: &Proposals)
        ensures
            r@ == self@.proposals,
    {
        &self.proposals
    }

    /// How votes are cast.
    pub fn payload_type(&self) -> (r: PayloadType)
        ensures
            r == self@.payload_type,
    {
        self.payload_type
    }

    /// The public keys of the committee members.
    pub fn committee_public_keys(&self) -> (r: &Vec<MemberPublicKey>)
        ensures
            member_key_values(r@) == self@.committee_public_keys,
            r@.len() <= MAX_COMMITTEE_KEYS,
    {
        proof {
            use_type_invariant(self);
        }
        &self.committee_public_keys
    }

    /// Whether votes can be cast at `date`: from the start of voting to its
    /// end, both included.
    pub fn can_vote(&self, date: BlockDate) -> (r: bool)
        ensures
            r == (date_le(self@.vote_start, date) && date_le(date, self@.vote_end)),
    {
        self.vote_start.is_at_or_before(&date) && date.is_at_or_before(&self.vote_end)
    }

    /// Whether the committee can act at `date`: from the end of voting to
    /// the end of the committee's time, both included.
    pub fn can_committee(&self, date: BlockDate) -> (r: bool)
        ensures
            r == (date_le(self@.vote_end, date) && date_le(date, self@.committee_end)),
    {
        self.vote_end.is_at_or_before(&date) && date.is_at_or_before(&self.committee_end)
    }

    /// The canonical serialization.
    pub fn serialize(&self) -> (out: Vec<u8>)
        ensures
            out@ == vote_plan_bytes(self@),
    {
        let mut out: Vec<u8> = Vec::new();
        push_date(&mut out, self.vote_start);
        push_date(&mut out, self.vote_end);
        push_date(&mut out, self.committee_end);
        out.push(self.payload_type.as_byte());
        out.push(self.proposals.len() as u8);
        self.proposals.serialize_in(&mut out);
        let keys = self.committee_public_keys();
        out.push(keys.len() as u8);
        let ghost head = out@;
        let mut i: usize = 0;
        let ghost vals = member_key_values(keys@);
        proof {
            assert(out@ =~= head + elements_bytes(vals.subrange(0, 0)));
        }
        while i < keys.len()
            invariant
                i <= keys.len(),
                vals == member_key_values(keys@),
                out@ == head + elements_bytes(vals.subrange(0, i as int)),
            decreases keys.len() - i,
        {
            let mut piece = keys[i].to_bytes();
            proof {
                let next = vals.subrange(0, i + 1);
                assert(next.drop_last() =~= vals.subrange(0, i as int));
                assert(next.last() == keys@[i as int]@);
            }
            out.append(&mut piece);
            proof {
                assert(out@ =~= head + elements_bytes(vals.subrange(0, i + 1)));
            }
            i = i + 1;
        }
        proof {
            assert(vals.subrange(0, keys.len() as int) =~= vals);
            assert(out@ =~= vote_plan_bytes(self@));
        }
        out
    }

    /// The identifier of the plan: the digest of its serialization.
    pub fn to_id(&self) -> (r: VotePlanId)
        ensures
            r@ == vote_plan_id(self@),
    {
        let bytes = self.serialize();
        Digest::digest_byteslice(bytes.as_slice())
    }
}

} // verus!
