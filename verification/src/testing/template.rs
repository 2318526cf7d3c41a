//! Descriptions of wallets, stake pools and vote plans from which a scenario
//! is set up.

use crate::certificate::pool::{PoolPermissions, TaxType};
use crate::certificate::vote_plan::{
    vote_plan_id, ExternalProposalId, Proposal, Proposals, VoteAction, VotePlan, VotePlanView,
    MAX_COMMITTEE_KEYS,
};
use crate::committee::{member_key_values, MemberPublicKey};
use crate::date::BlockDate;
use crate::hash::{copy_vec, hex_chars};
use crate::key::PublicKey;
use crate::value::Value;
use crate::vote::choice::{Options, NUM_CHOICES_MAX};
use crate::vote::payload::PayloadType;
use vstd::prelude::*;

verus! {

/// A wallet of a scenario.
#[derive(Debug)]
pub struct WalletTemplate {
    pub alias: String,
    pub stake_pool_delegate_alias: Option<String>,
    pub stake_pool_owner_alias: Option<String>,
    pub initial_value: Value,
    pub committee_member: bool,
}

fn clone_alias(alias: &Option<String>) -> (r: Option<String>)
    ensures
        match (alias, r) {
            (Some(a), Some(b)) => a@ == b@,
            (None, None) => true,
            _ => false,
        },
{
    match alias {
        Some(a) => Some(a.clone()),
        None => None,
    }
}

impl WalletTemplate {
    /// The wallet with the given alias and value, that neither delegates
    /// nor owns a pool and is no committee member.
    pub fn new(alias: &str, initial_value: Value) -> (r: WalletTemplate)
        ensures
            r.alias@ == alias@,
            r.stake_pool_delegate_alias is None,
            r.stake_pool_owner_alias is None,
            r.initial_value == initial_value,
            !r.committee_member,
    {
        WalletTemplate {
            alias: alias.to_owned(),
            stake_pool_delegate_alias: None,
            stake_pool_owner_alias: None,
            initial_value,
            committee_member: false,
        }
    }

    /// The alias of the pool the wallet delegates to, if any.
    pub fn delegates_stake_pool(&self) -> (r: Option<String>)
        ensures
            match (self.stake_pool_delegate_alias, r) {
                (Some(a), Some(b)) => a@ == b@,
                (None, None) => true,
                _ => false,
            },
    {
        clone_alias(&self.stake_pool_delegate_alias)
    }

    /// The alias of the pool the wallet owns, if any.
    pub fn owns_stake_pool(&self) -> (r: Option<String>)
        ensures
            match (self.stake_pool_owner_alias, r) {
                (Some(a), Some(b)) => a@ == b@,
                (None, None) => true,
                _ => false,
            },
    {
        clone_alias(&self.stake_pool_owner_alias)
    }

    /// Whether the wallet is of a committee member.
    pub fn is_committee_member(&self) -> (r: bool)
        ensures
            r == self.committee_member,
    {
        self.committee_member
    }

    /// The alias of the wallet.
    pub fn alias(&self) -> (r: String)
        ensures
            r@ == self.alias@,
    {
        self.alias.clone()
    }

    /// Whether two wallets have the same alias.
    pub fn same_alias(&self, other: &WalletTemplate) -> (r: bool)
        ensures
            r == (self.alias@ == other.alias@),
    {
        self.alias == other.alias
    }
}

/// A stake pool of a scenario, with its owners.
#[derive(Debug)]
pub struct StakePoolTemplate {
    pub alias: String,
    pub owners: Vec<PublicKey>,
}

impl StakePoolTemplate {
    /// The alias of the pool.
    pub fn alias(&self) -> (r: String)
        ensures
            r@ == self.alias@,
    {
        self.alias.clone()
    }

    /// The owners of the pool.
    pub fn owners(&self) -> (r: Vec<PublicKey>)
        ensures
            r@ == self.owners@,
    {
        copy_vec(&self.owners)
    }
}

/// What a scenario says of a stake pool.
#[derive(Debug)]
pub struct StakePoolDef {
    pub alias: String,
    pub permissions_threshold: Option<u8>,
    pub has_reward_account: bool,
    pub tax_type: Option<TaxType>,
}

impl StakePoolDef {
    /// The permissions of the pool, if a threshold is set.
    pub fn pool_permission(&self) -> (r: Option<PoolPermissions>)
        ensures
            match self.permissions_threshold {
                Some(t) => r matches Some(p) && p.threshold() == t % 64,
                None => r is None,
            },
    {
        match self.permissions_threshold {
            Some(t) => Some(PoolPermissions::new(t)),
            None => None,
        }
    }
}

/// What a scenario says of a proposal.
#[derive(Clone, Copy, Debug, PartialEq, Eq, Structural)]
pub struct ProposalDef {
    id: ExternalProposalId,
    options: u8,
    action_type: VoteAction,
}

impl ProposalDef {
    #[verifier::type_invariant]
    spec fn inv(self) -> bool {
        0 < self.options <= NUM_CHOICES_MAX
    }

    /// The description of a proposal with the given identifier, number of
    /// options and action; `None` unless the number of options is between
    /// one and `NUM_CHOICES_MAX`.
    pub fn new(id: ExternalProposalId, options: u8, action_type: VoteAction) -> (r: Option<
        ProposalDef,
    >)
        ensures
            match r {
                Some(d) => 0 < options <= NUM_CHOICES_MAX && d.proposal() == (Proposal {
                    external_id: id,
                    options: d.proposal().options,
                    action: action_type,
                }) && d.proposal().options@ == options,
                None => !(0 < options <= NUM_CHOICES_MAX),
            },
    {
        if options > 0 && options <= NUM_CHOICES_MAX {
            let d = ProposalDef { id, options, action_type };
            proof {
                d.lemma_proposal();
            }
            Some(d)
        } else {
            None
        }
    }

    /// The proposal described.
    pub closed spec fn proposal(self) -> Proposal {
        Proposal {
            external_id: self.id,
            options: choose|o: Options| o@ == self.options as nat,
            action: self.action_type,
        }
    }

    proof fn lemma_proposal(self)
        requires
            self.inv(),
        ensures
            self.proposal().options@ == self.options,
            self.proposal().external_id == self.id,
            self.proposal().action == self.action_type,
    {
        crate::vote::choice::lemma_options_exist(self.options);
    }

    /// The identifier of the proposal.
    pub fn id(&self) -> (r: ExternalProposalId)
        ensures
            r == self.proposal().external_id,
    {
        self.id
    }

    /// The proposal described.
    pub fn to_proposal(&self) -> (r: Proposal)
        ensures
            r == self.proposal(),
    {
        proof {
            use_type_invariant(self);
            self.lemma_proposal();
        }
        let options = match Options::new_length(self.options) {
            Ok(o) => o,
            Err(_) => vstd::pervasive::unreached(),
        };
        proof {
            crate::vote::choice::lemma_options_unique(options, self.proposal().options);
        }
        Proposal::new(self.id, options, self.action_type)
    }
}

/// The proposals described.
pub open spec fn described_proposals(s: Seq<ProposalDef>) -> Seq<Proposal> {
    s.map_values(|d: ProposalDef| d.proposal())
}

/// What a scenario says of a vote plan.
#[derive(Debug)]
pub struct VotePlanDef {
    alias: String,
    owner_alias: String,
    payload_type: PayloadType,
    vote_date: BlockDate,
    tally_date: BlockDate,
    end_tally_date: BlockDate,
    committee_keys: Vec<MemberPublicKey>,
    proposals: Vec<ProposalDef>,
}

/// The abstract description of a vote plan.
pub struct VotePlanDefView {
    pub alias: Seq<char>,
    pub owner_alias: Seq<char>,
    pub payload_type: PayloadType,
    pub vote_date: BlockDate,
    pub tally_date: BlockDate,
    pub end_tally_date: BlockDate,
    pub committee_keys: Seq<MemberPublicKey>,
    pub proposals: Seq<ProposalDef>,
}

impl View for VotePlanDef {
    type V = VotePlanDefView;

    closed spec fn view(&self) -> VotePlanDefView {
        VotePlanDefView {
            alias: self.alias@,
            owner_alias: self.owner_alias@,
            payload_type: self.payload_type,
            vote_date: self.vote_date,
            tally_date: self.tally_date,
            end_tally_date: self.end_tally_date,
            committee_keys: self.committee_keys@,
            proposals: self.proposals@,
        }
    }
}

/// The plan that a description stands for: its proposals as far as a plan
/// takes them, in their order.
pub open spec fn described_plan(d: VotePlanDefView) -> VotePlanView {
    VotePlanView {
        vote_start: d.vote_date,
        vote_end: d.tally_date,
        committee_end: d.end_tally_date,
        proposals: described_proposals(d.proposals).take(
            if d.proposals.len() <= crate::certificate::vote_plan::MAX_PROPOSALS {
                d.proposals.len() as int
            } else {
                crate::certificate::vote_plan::MAX_PROPOSALS as int
            },
        ),
        payload_type: d.payload_type,
        committee_public_keys: member_key_values(d.committee_keys),
    }
}

impl VotePlanDef {
    /// The description of a vote plan.
    pub fn new(
        alias: &str,
        owner_alias: &str,
        payload_type: PayloadType,
        vote_date: BlockDate,
        tally_date: BlockDate,
        end_tally_date: BlockDate,
        committee_keys: Vec<MemberPublicKey>,
        proposals: Vec<ProposalDef>,
    ) -> (r: VotePlanDef)
        ensures
            r@ == (VotePlanDefView {
                alias: alias@,
                owner_alias: owner_alias@,
                payload_type,
                vote_date,
                tally_date,
                end_tally_date,
                committee_keys: committee_keys@,
                proposals: proposals@,
            }),
    {
        VotePlanDef {
            alias: alias.to_owned(),
            owner_alias: owner_alias.to_owned(),
            payload_type,
            vote_date,
            tally_date,
            end_tally_date,
            committee_keys,
            proposals,
        }
    }

    /// The alias of the plan.
    pub fn alias(&self) -> (r: String)
        ensures
            r@ == self@.alias,
    {
        self.alias.clone()
    }

    /// The alias of the owner of the plan.
    pub fn owner(&self) -> (r: String)
        ensures
            r@ == self@.owner_alias,
    {
        self.owner_alias.clone()
    }

    /// The descriptions of the proposals.
    pub fn proposals(&self) -> (r: Vec<ProposalDef>)
        ensures
            r@ == self@.proposals,
    {
        copy_vec(&self.proposals)
    }

    /// The description of the proposal at `index`.
    pub fn proposal(&self, index: usize) -> (r: ProposalDef)
        requires
            index < self@.proposals.len(),
        ensures
            r == self@.proposals[index as int],
    {
        self.proposals[index]
    }

    /// The plan described.
    pub fn to_vote_plan(&self) -> (r: VotePlan)
        requires
            self@.committee_keys.len() <= MAX_COMMITTEE_KEYS,
        ensures
            r@ == described_plan(self@),
            r.well_formed(),
    {
        let mut proposals = Proposals::new();
        let mut i: usize = 0;
        let ghost all = described_proposals(self.proposals@);
        while i < self.proposals.len()
            invariant
                i <= self.proposals.len(),
                all == described_proposals(self.proposals@),
                proposals@ == all.take(
                    if i <= crate::certificate::vote_plan::MAX_PROPOSALS {
                        i as int
                    } else {
                        crate::certificate::vote_plan::MAX_PROPOSALS as int
                    },
                ),
            decreases self.proposals.len() - i,
        {
            let ghost before = proposals@;
            let _pushed = proposals.push(self.proposals[i].to_proposal());
            proof {
                if i < crate::certificate::vote_plan::MAX_PROPOSALS {
                    assert(all.take(i + 1) =~= all.take(i as int).push(all[i as int]));
                }
            }
            i = i + 1;
        }
        VotePlan::new(
            self.vote_date,
            self.tally_date,
            self.end_tally_date,
            proposals,
            self.payload_type,
            copy_vec(&self.committee_keys),
        )
    }

    /// The identifier of the plan described, in hexadecimal.
    pub fn id(&self) -> (r: String)
        requires
            self@.committee_keys.len() <= MAX_COMMITTEE_KEYS,
        ensures
            r@ == hex_chars(vote_plan_id(described_plan(self@))),
    {
        let vote_plan = self.to_vote_plan();
        vote_plan.to_id().to_hex()
    }

    /// The committee keys of the plan.
    pub fn committee_keys(&self) -> (r: Vec<MemberPublicKey>)
        ensures
            r@ == self@.committee_keys,
    {
        copy_vec(&self.committee_keys)
    }

    /// The committee keys of the plan, to change them.
    pub fn committee_keys_mut(&mut self) -> (r: &mut Vec<MemberPublicKey>)
        ensures
            r@ == old(self)@.committee_keys,
            final(self)@ == (VotePlanDefView { committee_keys: final(r)@, ..old(self)@ }),
    {
        &mut self.committee_keys
    }
}

} // verus!
