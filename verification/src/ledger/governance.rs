//! When a proposal counts as accepted, and what the governance of the
//! treasury and of the parameters asks for.

use crate::certificate::vote_plan::{
    ParametersGovernanceAction, TreasuryGovernanceAction, VoteAction,
};
use crate::stake::clamp_u64;
use crate::vote::choice::{Choice};
use vstd::prelude::*;

verus! {

/// A ratio of two amounts; the denominator is not zero.
#[derive(Clone, Copy, Debug, PartialEq, Eq, Structural)]
pub struct Ratio {
    pub numerator: u64,
    pub denominator: u64,
}

/// What a tally has to show for a proposal to be accepted.
#[derive(Clone, Copy, Debug, PartialEq, Eq, Structural)]
pub struct GovernanceAcceptanceCriteria {
    /// Least share of the whole stake that has to take part, if any.
    pub minimum_stake_participation: Option<Ratio>,
    /// Least share of the votes cast that has to be favorable, if any.
    pub minimum_approval: Option<Ratio>,
    /// The choice that abstains.
    pub blank: Choice,
    /// The choice that accepts.
    pub favorable: Choice,
    /// The choice that rejects.
    pub rejection: Choice,
}

/// The acceptance criteria of treasury actions.
#[derive(Clone, Copy, Debug, PartialEq, Eq, Structural)]
pub struct TreasuryGovernance {
    default_acceptance_criteria: GovernanceAcceptanceCriteria,
    transfer_to_rewards: Option<GovernanceAcceptanceCriteria>,
}

/// The acceptance criteria of changes of parameters.
#[derive(Clone, Copy, Debug, PartialEq, Eq, Structural)]
pub struct ParametersGovernance {
    default_acceptance_criteria: GovernanceAcceptanceCriteria,
    reward_add: Option<GovernanceAcceptanceCriteria>,
}

/// The governance of the ledger.
#[derive(Clone, Copy, Debug, PartialEq, Eq, Structural)]
pub struct Governance {
    pub treasury: TreasuryGovernance,
    pub parameters: ParametersGovernance,
}

/// The criteria used where none are set: no minimum of participation or
/// approval; choice zero abstains, one accepts, two rejects.
pub open spec fn default_criteria() -> GovernanceAcceptanceCriteria {
    GovernanceAcceptanceCriteria {
        minimum_stake_participation: None,
        minimum_approval: None,
        blank: Choice::new_spec(0),
        favorable: Choice::new_spec(1),
        rejection: Choice::new_spec(2),
    }
}

/// The votes of all options together.
pub open spec fn votes_cast(results: Seq<u64>) -> nat
    decreases results.len(),
{
    if results.len() == 0 {
        0
    } else {
        votes_cast(results.drop_last()) + results.last() as nat
    }
}

/// Whether `part` is at least the ratio of `whole`.
pub open spec fn reaches(part: u64, whole: u64, ratio: Option<Ratio>) -> bool {
    match ratio {
        None => true,
        Some(r) => part as nat * r.denominator as nat >= r.numerator as nat * whole as nat,
    }
}

/// Whether a tally meets the criteria: the favorable and the rejecting
/// choice are options of the tally, enough of the stake took part, enough of
/// the votes cast are favorable, and more votes are favorable than
/// rejecting.
pub open spec fn is_accepted(
    criteria: GovernanceAcceptanceCriteria,
    total_stake: u64,
    results: Seq<u64>,
) -> bool {
    &&& (criteria.favorable@ as int) < results.len()
    &&& (criteria.rejection@ as int) < results.len()
    &&& reaches(clamp_u64(votes_cast(results)), total_stake, criteria.minimum_stake_participation)
    &&& reaches(
        results[criteria.favorable@ as int],
        clamp_u64(votes_cast(results)),
        criteria.minimum_approval,
    )
    &&& results[criteria.favorable@ as int] > results[criteria.rejection@ as int]
}

/// The criteria that apply to an action, if the action is one of
/// governance.
pub open spec fn criteria_for(g: Governance, action: VoteAction) -> Option<
    GovernanceAcceptanceCriteria,
> {
    match action {
        VoteAction::OffChain => None,
        VoteAction::Treasury { action } => Some(g.treasury.criteria(action)),
        VoteAction::Parameters { action } => Some(g.parameters.criteria(action)),
    }
}

fn reaches_exec(part: u64, whole: u64, ratio: &Option<Ratio>) -> (r: bool)
    ensures
        r == reaches(part, whole, *ratio),
{
    match ratio {
        None => true,
        Some(r) => {
            proof {
                assert(part as nat * r.denominator as nat <= u64::MAX * u64::MAX) by (nonlinear_arith)
                    requires
                        part <= u64::MAX,
                        r.denominator <= u64::MAX,
                ;
                assert(r.numerator as nat * whole as nat <= u64::MAX * u64::MAX) by (nonlinear_arith)
                    requires
                        whole <= u64::MAX,
                        r.numerator <= u64::MAX,
                ;
            }
            (part as u128) * (r.denominator as u128) >= (r.numerator as u128) * (whole as u128)
        },
    }
}

impl Default for GovernanceAcceptanceCriteria {
    fn default() -> (r: GovernanceAcceptanceCriteria)
        ensures
            r == default_criteria(),
    {
        GovernanceAcceptanceCriteria {
            minimum_stake_participation: None,
            minimum_approval: None,
            blank: Choice::new(0),
            favorable: Choice::new(1),
            rejection: Choice::new(2),
        }
    }
}

impl GovernanceAcceptanceCriteria {
    /// Whether the tally `results` meets the criteria, with `total_stake`
    /// the stake of all accounts.
    pub fn accepts(&self, total_stake: u64, results: &Vec<u64>) -> (r: bool)
        ensures
            r == is_accepted(*self, total_stake, results@),
    {
        let favorable = self.favorable.as_byte() as usize;
        let rejection = self.rejection.as_byte() as usize;
        if favorable >= results.len() || rejection >= results.len() {
            return false;
        }
        let mut cast: u64 = 0;
        let mut i: usize = 0;
        while i < results.len()
            invariant
                i <= results.len(),
                cast == clamp_u64(votes_cast(results@.subrange(0, i as int))),
            decreases results.len() - i,
        {
            proof {
                let next = results@.subrange(0, i + 1);
                assert(next.drop_last() =~= results@.subrange(0, i as int));
            }
            let v = results[i];
            cast = if cast <= u64::MAX - v {
                cast + v
            } else {
                u64::MAX
            };
            i = i + 1;
        }
        proof {
            assert(results@.subrange(0, results@.len() as int) =~= results@);
        }
        reaches_exec(cast, total_stake, &self.minimum_stake_participation) && reaches_exec(
            results[favorable],
            cast,
            &self.minimum_approval,
        ) && results[favorable] > results[rejection]
    }
}

impl TreasuryGovernance {
    /// The criteria for a treasury action: those set for the action, else
    /// the default ones.
    pub open spec fn criteria(self, action: TreasuryGovernanceAction) -> GovernanceAcceptanceCriteria {
        match (action, self.transfer_to_rewards_criteria()) {
            (TreasuryGovernanceAction::TransferToRewards { .. }, Some(c)) => c,
            _ => self.default_criteria(),
        }
    }

    /// The default criteria.
    pub closed spec fn default_criteria(self) -> GovernanceAcceptanceCriteria {
        self.default_acceptance_criteria
    }

    /// The criteria set for transfers to the rewards, if any.
    pub closed spec fn transfer_to_rewards_criteria(self) -> Option<GovernanceAcceptanceCriteria> {
        self.transfer_to_rewards
    }

    /// Treasury governance with the default criteria and none set for an
    /// action.
    pub fn new() -> (r: TreasuryGovernance)
        ensures
            r.default_criteria() == default_criteria(),
            r.transfer_to_rewards_criteria() is None,
    {
        TreasuryGovernance {
            default_acceptance_criteria: GovernanceAcceptanceCriteria::default(),
            transfer_to_rewards: None,
        }
    }

    /// Sets the default criteria.
    pub fn set_default_acceptance_criteria(&mut self, criteria: GovernanceAcceptanceCriteria)
        ensures
            final(self).default_criteria() == criteria,
            final(self).transfer_to_rewards_criteria() == old(self).transfer_to_rewards_criteria(),
    {
        self.default_acceptance_criteria = criteria;
    }

    /// Sets the criteria for transfers to the rewards.
    pub fn set_transfer_to_rewards_criteria(&mut self, criteria: GovernanceAcceptanceCriteria)
        ensures
            final(self).default_criteria() == old(self).default_criteria(),
            final(self).transfer_to_rewards_criteria() == Some(criteria),
    {
        self.transfer_to_rewards = Some(criteria);
    }

    /// The criteria for a treasury action.
    pub fn acceptance_criteria_for(&self, action: TreasuryGovernanceAction) -> (r:
        GovernanceAcceptanceCriteria)
        ensures
            r == self.criteria(action),
    {
        match (action, self.transfer_to_rewards) {
            (TreasuryGovernanceAction::TransferToRewards { .. }, Some(c)) => c,
            _ => self.default_acceptance_criteria,
        }
    }
}

impl ParametersGovernance {
    /// The criteria for a change of parameters: those set for the change,
    /// else the default ones.
    pub open spec fn criteria(self, action: ParametersGovernanceAction) -> GovernanceAcceptanceCriteria {
        match (action, self.reward_add_criteria()) {
            (ParametersGovernanceAction::RewardAdd { .. }, Some(c)) => c,
            _ => self.default_criteria(),
        }
    }

    /// The default criteria.
    pub closed spec fn default_criteria(self) -> GovernanceAcceptanceCriteria {
        self.default_acceptance_criteria
    }

    /// The criteria set for additions to the rewards, if any.
    pub closed spec fn reward_add_criteria(self) -> Option<GovernanceAcceptanceCriteria> {
        self.reward_add
    }

    /// Parameters governance with the default criteria and none set for a
    /// change.
    pub fn new() -> (r: ParametersGovernance)
        ensures
            r.default_criteria() == default_criteria(),
            r.reward_add_criteria() is None,
    {
        ParametersGovernance {
            default_acceptance_criteria: GovernanceAcceptanceCriteria::default(),
            reward_add: None,
        }
    }

    /// Sets the default criteria.
    pub fn set_default_acceptance_criteria(&mut self, criteria: GovernanceAcceptanceCriteria)
        ensures
            final(self).default_criteria() == criteria,
            final(self).reward_add_criteria() == old(self).reward_add_criteria(),
    {
        self.default_acceptance_criteria = criteria;
    }

    /// Sets the criteria for additions to the rewards.
    pub fn set_reward_add_criteria(&mut self, criteria: GovernanceAcceptanceCriteria)
        ensures
            final(self).default_criteria() == old(self).default_criteria(),
            final(self).reward_add_criteria() == Some(criteria),
    {
        self.reward_add = Some(criteria);
    }

    /// The criteria for a change of parameters.
    pub fn acceptance_criteria_for(&self, action: ParametersGovernanceAction) -> (r:
        GovernanceAcceptanceCriteria)
        ensures
            r == self.criteria(action),
    {
        match (action, self.reward_add) {
            (ParametersGovernanceAction::RewardAdd { .. }, Some(c)) => c,
            _ => self.default_acceptance_criteria,
        }
    }
}

impl Governance {
    /// Governance with the default criteria throughout.
    pub fn new() -> (r: Governance)
        ensures
            r.treasury.default_criteria() == default_criteria(),
            r.parameters.default_criteria() == default_criteria(),
            r.treasury.transfer_to_rewards_criteria() is None,
            r.parameters.reward_add_criteria() is None,
    {
        Governance { treasury: TreasuryGovernance::new(), parameters: ParametersGovernance::new() }
    }

    /// The criteria that apply to an action, if the action is one of
    /// governance.
    pub fn acceptance_criteria_for(&self, action: VoteAction) -> (r: Option<
        GovernanceAcceptanceCriteria,
    >)
        ensures
            r == criteria_for(*self, action),
    {
        match action {
            VoteAction::OffChain => None,
            VoteAction::Treasury { action } => Some(self.treasury.acceptance_criteria_for(action)),
            VoteAction::Parameters { action } => Some(
                self.parameters.acceptance_criteria_for(action),
            ),
        }
    }
}

} // verus!
