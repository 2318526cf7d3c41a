//! The ledger of vote plans: an immutable index from plan identifiers to
//! plan managers. Every change gives a new ledger and leaves the old one as
//! it was.

use crate::certificate::vote_cast::{VoteCast, VoteCastView};
use crate::certificate::vote_plan::{
    vote_plan_id, VoteAction, VotePlan, VotePlanId, VotePlanView,
};
use crate::certificate::vote_tally::{EncryptedVoteTally, MemberSharesView, TallyProof, VoteTally};
use crate::date::{date_gt, date_le, BlockDate};
use crate::ledger::governance::Governance;
use crate::persistent::{InsertError, PersistentMap, UpdateError};
use crate::stake::{clamp_u64, stake_of, total_stake, StakeControl, UnspecifiedAccountIdentifier};
use crate::vote::committee::{committee_values, CommitteeId};
use crate::vote::manager::{
    accepted_actions, all_private_results, all_public_results, finalize_error, fresh_manager,
    manager_after_results, manager_after_start, manager_after_vote, manager_fits,
    public_tally_error, start_tally_error, vote_error, ManagerView, VoteError, VotePlanManager,
};
use crate::vote::payload::PayloadType;
use vstd::prelude::*;

verus! {

/// The ledger of vote plans.
pub struct VotePlanLedger {
    plans: PersistentMap<VotePlanManager>,
}

/// Why a change of the ledger of vote plans is refused.
#[derive(Clone, Copy, Debug, PartialEq, Eq, Structural)]
pub enum VotePlanLedgerError {
    /// The plan cannot be inserted.
    VotePlanInsertionError { id: VotePlanId, reason: InsertError },
    /// The plan cannot be updated.
    VoteError { id: VotePlanId, reason: UpdateError<VoteError> },
    /// The plan is set to finish in the past.
    VotePlanVoteEndPassed { current_date: BlockDate, vote_end: BlockDate },
    /// The plan has started already.
    VotePlanVoteStartStartedAlready { current_date: BlockDate, vote_start: BlockDate },
    /// A plan voted encrypted has no committee member key.
    VotePlanMissingCommitteeMemberKey,
    /// The dates of the plan are out of order: voting has to start no later
    /// than it ends, and end no later than the committee's time.
    VotePlanInvalidDates { vote_start: BlockDate, vote_end: BlockDate, committee_end: BlockDate },
}

impl View for VotePlanLedger {
    type V = Map<VotePlanId, ManagerView>;

    closed spec fn view(&self) -> Map<VotePlanId, ManagerView> {
        self.plans@.map_values(|m: VotePlanManager| m@)
    }
}

/// Whether the dates of a plan are in order.
pub open spec fn dates_in_order(plan: VotePlanView) -> bool {
    date_le(plan.vote_start, plan.vote_end) && date_le(plan.vote_end, plan.committee_end)
}

/// Why a plan cannot be added at a date, apart from being there already:
/// in this order, its voting ends before the date; its voting starts before
/// the date; it is voted encrypted and has no committee member key; its
/// dates are out of order.
pub open spec fn plan_error(current_date: BlockDate, plan: VotePlanView) -> Option<
    VotePlanLedgerError,
> {
    if date_gt(current_date, plan.vote_end) {
        Some(VotePlanLedgerError::VotePlanVoteEndPassed { current_date, vote_end: plan.vote_end })
    } else if date_gt(current_date, plan.vote_start) {
        Some(
            VotePlanLedgerError::VotePlanVoteStartStartedAlready {
                current_date,
                vote_start: plan.vote_start,
            },
        )
    } else if plan.payload_type == PayloadType::Private && plan.committee_public_keys.len() == 0 {
        Some(VotePlanLedgerError::VotePlanMissingCommitteeMemberKey)
    } else if !dates_in_order(plan) {
        Some(
            VotePlanLedgerError::VotePlanInvalidDates {
                vote_start: plan.vote_start,
                vote_end: plan.vote_end,
                committee_end: plan.committee_end,
            },
        )
    } else {
        None
    }
}

/// Whether every manager of the ledger is consistent, stands under its own
/// identifier, and has the dates of its plan in order.
pub open spec fn ledger_fits(l: Map<VotePlanId, ManagerView>) -> bool {
    forall|id: VotePlanId| #[trigger]
        l.dom().contains(id) ==> l[id].id == id && manager_fits(l[id]) && dates_in_order(l[id].plan)
}

/// The error of an update of the plan `id` that its manager refuses.
pub open spec fn update_refused(id: VotePlanId, e: VoteError) -> VotePlanLedgerError {
    VotePlanLedgerError::VoteError { id, reason: UpdateError::ValueCallbackError(e) }
}

/// The error of an update of a plan that the ledger does not hold.
pub open spec fn update_missing(id: VotePlanId) -> VotePlanLedgerError {
    VotePlanLedgerError::VoteError { id, reason: UpdateError::KeyNotFound }
}

impl VotePlanLedger {
    #[verifier::type_invariant]
    spec fn inv(self) -> bool {
        ledger_fits(self@)
    }

    /// The ledger without plans.
    pub fn new() -> (r: VotePlanLedger)
        ensures
            r@ == Map::<VotePlanId, ManagerView>::empty(),
    {
        let r = VotePlanLedger { plans: PersistentMap::new() };
        proof {
            assert(r@ =~= Map::<VotePlanId, ManagerView>::empty());
        }
        r
    }

    /// Another handle on the same ledger.
    pub fn share(&self) -> (r: VotePlanLedger)
        ensures
            r@ == self@,
    {
        proof {
            use_type_invariant(self);
        }
        let plans = self.plans.share();
        proof {
            assert(plans@.map_values(|m: VotePlanManager| m@) =~= self@);
        }
        VotePlanLedger { plans }
    }

    /// A ledger is consistent.
    pub fn check_consistent(&self)
        ensures
            ledger_fits(self@),
    {
        proof {
            use_type_invariant(self);
        }
    }

    /// Whether the ledger holds the plan.
    pub fn contains(&self, id: &VotePlanId) -> (r: bool)
        ensures
            r == self@.dom().contains(*id),
    {
        self.plans.contains_key(id)
    }

    /// The manager of the plan, if the ledger holds it.
    pub fn manager(&self, id: &VotePlanId) -> (r: Option<&VotePlanManager>)
        ensures
            match r {
                Some(m) => self@.dom().contains(*id) && m@ == self@[*id],
                None => !self@.dom().contains(*id),
            },
    {
        self.plans.lookup(id)
    }

    fn with_manager(&self, id: &VotePlanId, manager: VotePlanManager) -> (r: VotePlanLedger)
        requires
            self@.dom().contains(*id),
            manager@.id == *id,
            manager_fits(manager@),
            dates_in_order(manager@.plan),
        ensures
            r@ == self@.insert(*id, manager@),
    {
        proof {
            use_type_invariant(self);
        }
        let ghost mv = manager@;
        match self.plans.replace(id, manager) {
            Ok(plans) => {
                proof {
                    let nv = plans@.map_values(|m: VotePlanManager| m@);
                    assert(nv =~= self@.insert(*id, mv));
                    assert forall|k: VotePlanId| #[trigger] nv.dom().contains(k) implies nv[k].id
                        == k && manager_fits(nv[k]) && dates_in_order(nv[k].plan) by {
                        if k != *id {
                            assert(self@.dom().contains(k));
                        }
                    }
                }
                VotePlanLedger { plans }
            },
            Err(_) => vstd::pervasive::unreached(),
        }
    }

    /// Applies the vote to the plan it names, with the weight that `stake`
    /// gives the account. The receiver stays as it is: the ledger after the
    /// vote is returned.
    pub fn apply_vote(
        &self,
        block_date: BlockDate,
        identifier: UnspecifiedAccountIdentifier,
        stake: &StakeControl,
        vote: VoteCast,
    ) -> (r: Result<VotePlanLedger, VotePlanLedgerError>)
        ensures
            match r {
                Ok(next) => self@.dom().contains(vote@.vote_plan) && vote_error(
                    self@[vote@.vote_plan],
                    block_date,
                    vote@,
                ) is None && next@ == self@.insert(
                    vote@.vote_plan,
                    manager_after_vote(
                        self@[vote@.vote_plan],
                        identifier@,
                        stake_of(stake@, identifier@),
                        vote@,
                    ),
                ) && ledger_fits(next@) && apply_vote_error(self@, block_date, vote@) is None,
                Err(e) => apply_vote_error(self@, block_date, vote@) == Some(e),
            },
    {
        proof {
            use_type_invariant(self);
        }
        let id = *vote.vote_plan();
        match self.plans.lookup(&id) {
            None => Err(VotePlanLedgerError::VoteError { id, reason: UpdateError::KeyNotFound }),
            Some(manager) => {
                assert(self@.dom().contains(id));
                match manager.vote(block_date, identifier, stake, vote) {
                    Err(e) => Err(
                        VotePlanLedgerError::VoteError {
                            id,
                            reason: UpdateError::ValueCallbackError(e),
                        },
                    ),
                    Ok(next) => {
                        let r = self.with_manager(&id, next);
                        proof {
                            use_type_invariant(&r);
                        }
                        Ok(r)
                    },
                }
            },
        }
    }

    /// Adds the vote plan in a new ledger, with a fresh manager that takes
    /// votes. The receiver stays as it is.
    pub fn add_vote_plan(
        &self,
        current_date: BlockDate,
        vote_plan: VotePlan,
        committee: Vec<CommitteeId>,
    ) -> (r: Result<VotePlanLedger, VotePlanLedgerError>)
        requires
            vote_plan.well_formed(),
        ensures
            match r {
                Ok(next) => add_plan_error(self@, current_date, vote_plan@) is None && next@
                    == self@.insert(
                    plan_digest(vote_plan@),
                    fresh_manager(
                        vote_plan@,
                        plan_digest(vote_plan@),
                        committee_values(committee@),
                    ),
                ) && plan_digest(vote_plan@)@ == vote_plan_id(vote_plan@) && ledger_fits(next@),
                Err(e) => add_plan_error(self@, current_date, vote_plan@) == Some(e),
            },
    {
        proof {
            use_type_invariant(self);
        }
        if current_date.is_after(&vote_plan.vote_end()) {
            return Err(
                VotePlanLedgerError::VotePlanVoteEndPassed {
                    current_date,
                    vote_end: vote_plan.vote_end(),
                },
            );
        }
        if current_date.is_after(&vote_plan.vote_start()) {
            return Err(
                VotePlanLedgerError::VotePlanVoteStartStartedAlready {
                    current_date,
                    vote_start: vote_plan.vote_start(),
                },
            );
        }
        match vote_plan.payload_type() {
            PayloadType::Private => {
                if vote_plan.committee_public_keys().len() == 0 {
                    return Err(VotePlanLedgerError::VotePlanMissingCommitteeMemberKey);
                }
            },
            PayloadType::Public => {},
        }
        if !(vote_plan.vote_start().is_at_or_before(&vote_plan.vote_end())
            && vote_plan.vote_end().is_at_or_before(&vote_plan.committee_end())) {
            return Err(
                VotePlanLedgerError::VotePlanInvalidDates {
                    vote_start: vote_plan.vote_start(),
                    vote_end: vote_plan.vote_end(),
                    committee_end: vote_plan.committee_end(),
                },
            );
        }
        let ghost planv = vote_plan@;
        let ghost committeev = committee_values(committee@);
        let manager = VotePlanManager::new(vote_plan, committee);
        let id = *manager.id();
        let ghost mv = manager@;
        proof {
            lemma_plan_digest(planv, id);
        }
        match self.plans.insert(id, manager) {
            Err(reason) => {
                proof {
                    assert(id@ == vote_plan_id(planv) && self@.dom().contains(id)
                        && VotePlanLedgerError::VotePlanInsertionError { id, reason }
                        == already_there(id));
                }
                Err(VotePlanLedgerError::VotePlanInsertionError { id, reason })
            },
            Ok(plans) => {
                proof {
                    let nv = plans@.map_values(|m: VotePlanManager| m@);
                    assert(nv =~= self@.insert(id, mv));
                    assert forall|k: VotePlanId| #[trigger] nv.dom().contains(k) implies nv[k].id
                        == k && manager_fits(nv[k]) && dates_in_order(nv[k].plan) by {
                        if k != id {
                            assert(self@.dom().contains(k));
                        }
                    }
                }
                let r = VotePlanLedger { plans };
                proof {
                    assert(r@ =~= self@.insert(id, mv));
                    assert(mv == fresh_manager(planv, id, committeev));
                    assert(id@ == vote_plan_id(planv) && !self@.dom().contains(id) && r@
                        == self@.insert(id, fresh_manager(planv, id, committeev)));
                }
                Ok(r)
            },
        }
    }

    /// Applies the committee's tally certificate to the plan it names: a
    /// tally in the open, or the opening of the encrypted tally with the
    /// shares of the certificate. The actions of the accepted proposals are
    /// returned for the caller to apply. The receiver stays as it is.
    pub fn apply_committee_result(
        &self,
        block_date: BlockDate,
        stake: &StakeControl,
        governance: &Governance,
        tally: &VoteTally,
        sig: TallyProof,
    ) -> (r: Result<(VotePlanLedger, Vec<VoteAction>), VotePlanLedgerError>)
        ensures
            match r {
                Ok((next, actions)) => self@.dom().contains(tally.plan_id()) && committee_result(
                    self@[tally.plan_id()],
                    block_date,
                    clamp_u64(total_stake(stake@)),
                    *governance,
                    tally.decrypted_spec(),
                    sig,
                ) == Ok::<(ManagerView, Seq<VoteAction>), VoteError>((next@[tally.plan_id()], actions@))
                    && next@ == self@.insert(tally.plan_id(), next@[tally.plan_id()])
                    && ledger_fits(next@) && result_error(
                    self@,
                    block_date,
                    clamp_u64(total_stake(stake@)),
                    *governance,
                    tally.plan_id(),
                    tally.decrypted_spec(),
                    sig,
                ) is None,
                Err(e) => result_error(
                    self@,
                    block_date,
                    clamp_u64(total_stake(stake@)),
                    *governance,
                    tally.plan_id(),
                    tally.decrypted_spec(),
                    sig,
                ) == Some(e),
            },
    {
        proof {
            use_type_invariant(self);
        }
        let id = *tally.id();
        let committee_id = sig.committee_id();
        let manager = match self.plans.lookup(&id) {
            None => {
                return Err(
                    VotePlanLedgerError::VoteError { id, reason: UpdateError::KeyNotFound },
                );
            },
            Some(m) => m,
        };
        assert(self@.dom().contains(id));
        let outcome = match sig {
            TallyProof::Public { .. } => manager.public_tally(
                block_date,
                stake,
                governance,
                committee_id,
            ),
            TallyProof::Private { .. } => match tally.tally_decrypted() {
                Some(shares) => manager.finalize_private_tally(shares, governance),
                None => Err(
                    VoteError::InvalidPayloadType {
                        expected: PayloadType::Private,
                        received: PayloadType::Public,
                    },
                ),
            },
        };
        match outcome {
            Err(e) => Err(
                VotePlanLedgerError::VoteError { id, reason: UpdateError::ValueCallbackError(e) },
            ),
            Ok((next, actions)) => {
                let ghost nv = next@;
                let r = self.with_manager(&id, next);
                proof {
                    use_type_invariant(&r);
                    assert(r@[id] == nv);
                }
                Ok((r, actions))
            },
        }
    }

    /// Applies the certificate that starts the encrypted tally of the plan
    /// it names. The receiver stays as it is.
    pub fn apply_encrypted_vote_tally(
        &self,
        block_date: BlockDate,
        stake: &StakeControl,
        encrypted_tally: &EncryptedVoteTally,
        committee_id: CommitteeId,
    ) -> (r: Result<VotePlanLedger, VotePlanLedgerError>)
        ensures
            match r {
                Ok(next) => self@.dom().contains(encrypted_tally.plan_id()) && start_tally_error(
                    self@[encrypted_tally.plan_id()],
                    block_date,
                    committee_id@,
                ) is None && next@ == self@.insert(
                    encrypted_tally.plan_id(),
                    manager_after_start(
                        self@[encrypted_tally.plan_id()],
                        clamp_u64(total_stake(stake@)),
                    ),
                ) && ledger_fits(next@) && start_error(
                    self@,
                    block_date,
                    encrypted_tally.plan_id(),
                    committee_id@,
                ) is None,
                Err(e) => start_error(
                    self@,
                    block_date,
                    encrypted_tally.plan_id(),
                    committee_id@,
                ) == Some(e),
            },
    {
        proof {
            use_type_invariant(self);
        }
        let id = *encrypted_tally.id();
        match self.plans.lookup(&id) {
            None => Err(VotePlanLedgerError::VoteError { id, reason: UpdateError::KeyNotFound }),
            Some(manager) => {
                assert(self@.dom().contains(id));
                match manager.start_private_tally(block_date, stake, committee_id) {
                    Err(e) => Err(
                        VotePlanLedgerError::VoteError {
                            id,
                            reason: UpdateError::ValueCallbackError(e),
                        },
                    ),
                    Ok(next) => {
                        let r = self.with_manager(&id, next);
                        proof {
                            use_type_invariant(&r);
                        }
                        Ok(r)
                    },
                }
            },
        }
    }
}

/// The identifier of a plan, as a digest.
pub open spec fn plan_digest(plan: VotePlanView) -> VotePlanId {
    choose|d: VotePlanId| d@ == vote_plan_id(plan)
}

/// The digest that is the identifier of a plan is the plan's digest.
pub proof fn lemma_plan_digest(plan: VotePlanView, id: VotePlanId)
    requires
        id@ == vote_plan_id(plan),
    ensures
        plan_digest(plan) == id,
{
    plan_digest(plan).lemma_view_injective(id);
}

/// Why a plan cannot be added to a ledger at a date, if it cannot: the plan
/// is refused on its own, or the ledger holds it already.
pub open spec fn add_plan_error(
    l: Map<VotePlanId, ManagerView>,
    current_date: BlockDate,
    plan: VotePlanView,
) -> Option<VotePlanLedgerError> {
    match plan_error(current_date, plan) {
        Some(e) => Some(e),
        None => if l.dom().contains(plan_digest(plan)) {
            Some(already_there(plan_digest(plan)))
        } else {
            None
        },
    }
}

/// The error of an update of the plan `id`, from what its manager says: the
/// ledger does not hold the plan, or the manager refuses.
pub open spec fn update_error(
    l: Map<VotePlanId, ManagerView>,
    id: VotePlanId,
    refusal: Option<VoteError>,
) -> Option<VotePlanLedgerError> {
    if !l.dom().contains(id) {
        Some(update_missing(id))
    } else {
        match refusal {
            Some(e) => Some(update_refused(id, e)),
            None => None,
        }
    }
}

/// Why a vote cannot be applied to a ledger, if it cannot.
pub open spec fn apply_vote_error(
    l: Map<VotePlanId, ManagerView>,
    date: BlockDate,
    vote: VoteCastView,
) -> Option<VotePlanLedgerError> {
    update_error(
        l,
        vote.vote_plan,
        if l.dom().contains(vote.vote_plan) {
            vote_error(l[vote.vote_plan], date, vote)
        } else {
            None
        },
    )
}

/// Why the encrypted tally of the plan `id` cannot be started, if it
/// cannot.
pub open spec fn start_error(
    l: Map<VotePlanId, ManagerView>,
    date: BlockDate,
    id: VotePlanId,
    committee_id: Seq<u8>,
) -> Option<VotePlanLedgerError> {
    update_error(
        l,
        id,
        if l.dom().contains(id) {
            start_tally_error(l[id], date, committee_id)
        } else {
            None
        },
    )
}

/// Why a tally certificate cannot be applied, if it cannot.
pub open spec fn result_error(
    l: Map<VotePlanId, ManagerView>,
    date: BlockDate,
    total: u64,
    g: Governance,
    id: VotePlanId,
    shares: Option<Seq<MemberSharesView>>,
    sig: TallyProof,
) -> Option<VotePlanLedgerError> {
    update_error(
        l,
        id,
        if l.dom().contains(id) {
            match committee_result(l[id], date, total, g, shares, sig) {
                Err(e) => Some(e),
                Ok(_) => None,
            }
        } else {
            None
        },
    )
}

/// The error of adding a plan that the ledger holds already.
pub open spec fn already_there(id: VotePlanId) -> VotePlanLedgerError {
    VotePlanLedgerError::VotePlanInsertionError { id, reason: InsertError::EntryExists }
}

/// What a tally certificate does to a manager: signed as a tally in the
/// open, the plan is tallied in the open; signed as an encrypted tally, the
/// tally is opened with the shares of the certificate, and refused where the
/// certificate has none.
pub open spec fn committee_result(
    m: ManagerView,
    date: BlockDate,
    total: u64,
    g: Governance,
    shares: Option<Seq<MemberSharesView>>,
    sig: TallyProof,
) -> Result<(ManagerView, Seq<VoteAction>), VoteError> {
    match sig {
        TallyProof::Public { id, .. } => match public_tally_error(m, date, id@) {
            Some(e) => Err(e),
            None => Ok(
                (
                    manager_after_results(m, total, all_public_results(m)),
                    accepted_actions(
                        g,
                        total,
                        m.plan.proposals,
                        all_public_results(m),
                        m.plan.proposals.len(),
                    ),
                ),
            ),
        },
        TallyProof::Private { .. } => match shares {
            None => Err(
                VoteError::InvalidPayloadType {
                    expected: PayloadType::Private,
                    received: PayloadType::Public,
                },
            ),
            Some(s) => match finalize_error(m, s) {
                Some(e) => Err(e),
                None => Ok(
                    (
                        manager_after_results(m, m.total_stake, all_private_results(m, s)),
                        accepted_actions(
                            g,
                            m.total_stake,
                            m.plan.proposals,
                            all_private_results(m, s),
                            m.plan.proposals.len(),
                        ),
                    ),
                ),
            },
        },
    }
}

impl Default for VotePlanLedger {
    fn default() -> (r: VotePlanLedger)
        ensures
            r@ == Map::<VotePlanId, ManagerView>::empty(),
    {
        VotePlanLedger::new()
    }
}

} // verus!
