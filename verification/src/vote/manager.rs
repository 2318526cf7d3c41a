//! The manager of one vote plan: who voted what, the encrypted tallies, and
//! the steps from voting over tallying to the results.

use crate::certificate::vote_cast::{VoteCast, VoteCastView};
use crate::certificate::vote_plan::{
    vote_plan_id, Proposal, VoteAction, VotePlan, VotePlanId, VotePlanView,
};
use crate::certificate::vote_tally::{DecryptedPrivateTally, MemberShares, MemberSharesView};
use crate::committee::{crs_from_hash, Crs, ElectionPublicKey};
use crate::date::{date_le, BlockDate};
use crate::gang::ge_sum;
use crate::gargamel::{ciphertext_values, Ciphertext};
use crate::hash::copy_vec;
use crate::ledger::governance::{criteria_for, is_accepted, Governance};
use crate::shvzk::{verify, verify_spec};
use crate::stake::{clamp_u64, StakeControl, UnspecifiedAccountIdentifier};
use crate::tally::{
    count_value, decode_slots, opened_slots, result, tally_add, tally_new, tally_state,
    EncryptedTally, TallyDecryptShare, TallyResult,
};
use crate::vote::choice::{Choice, Options};
use crate::vote::committee::{committee_values, is_committee_member, CommitteeId};
use crate::vote::payload::{payload_type_of, Payload, PayloadType, PayloadView};
use vstd::prelude::*;

verus! {

/// Number of entries of the table with which tallies are decoded.
pub const TALLY_TABLE_SIZE: usize = 16;

/// Why a step on a vote plan is refused.
#[derive(Clone, Copy, Debug, PartialEq, Eq, Structural)]
pub enum VoteError {
    /// The vote names another plan.
    InvalidVotePlan { expected: VotePlanId, received: VotePlanId },
    /// The plan has no proposal of that index.
    InvalidVoteProposal { num_proposals: usize, proposal_index: u8 },
    /// The date is outside the time of voting.
    NotVoteTime { start: BlockDate, end: BlockDate, provided: BlockDate },
    /// The date is outside the committee's time.
    NotCommitteeTime { start: BlockDate, end: BlockDate, provided: BlockDate },
    /// The plan is no longer open for votes, or its tally was started
    /// already.
    VotingClosed,
    /// The vote is cast in another way than the plan asks.
    InvalidPayloadType { expected: PayloadType, received: PayloadType },
    /// The choice is none of the proposal's options.
    InvalidChoice { options: Options, choice: Choice },
    /// The encrypted vote has not one ciphertext per option, or its proof
    /// does not hold.
    VoteVerificationError,
    /// The signer is no member of the plan's committee.
    InvalidTallyCommittee,
    /// The plan is voted in the open: it has no encrypted tally.
    PrivateTallyExpected,
    /// The plan is voted encrypted: its tally needs decryption shares.
    PublicTallyExpected,
    /// The encrypted tally was not started, or the plan is finished.
    TallyNotStarted,
    /// Fewer distinct committee members gave shares than the plan asks.
    NotEnoughShares { threshold: usize, provided: usize },
    /// A member gave shares twice, is no committee member, or has a share
    /// that does not fit the proposals.
    InvalidDecryptShare,
    /// The votes of an option do not fit in 64 bits.
    TallyOverflow,
}

/// The last vote of one account on one proposal.
#[derive(Debug)]
pub struct VoterRecord {
    pub account: UnspecifiedAccountIdentifier,
    pub weight: u64,
    pub choice: Choice,
    pub ballot: Vec<Ciphertext>,
}

/// The abstract record of a vote.
pub struct VoterRecordView {
    pub account: Seq<u8>,
    pub weight: u64,
    pub choice: u8,
    pub ballot: Seq<(nat, nat)>,
}

impl View for VoterRecord {
    type V = VoterRecordView;

    open spec fn view(&self) -> VoterRecordView {
        VoterRecordView {
            account: self.account@,
            weight: self.weight,
            choice: self.choice@,
            ballot: ciphertext_values(self.ballot@),
        }
    }
}

/// The views of a sequence of records.
pub open spec fn record_values(s: Seq<VoterRecord>) -> Seq<VoterRecordView> {
    s.map_values(|r: VoterRecord| r@)
}

/// The index of the first record of `account`, or the number of records
/// where it has none.
pub open spec fn index_of(records: Seq<VoterRecordView>, account: Seq<u8>) -> int
    decreases records.len(),
{
    if records.len() == 0 {
        0
    } else if records[0].account == account {
        0
    } else {
        1 + index_of(records.drop_first(), account)
    }
}

/// The records after a vote: the account's record is replaced where it has
/// one, and added at the end where it has none.
pub open spec fn record_vote(records: Seq<VoterRecordView>, rec: VoterRecordView) -> Seq<
    VoterRecordView,
> {
    let i = index_of(records, rec.account);
    if i < records.len() {
        records.update(i, rec)
    } else {
        records.push(rec)
    }
}

/// The encrypted tally of the records: from the empty tally, each record's
/// ballot added with the record's weight.
pub open spec fn tally_of(records: Seq<VoterRecordView>, options: nat) -> Seq<(nat, nat)>
    decreases records.len(),
{
    if records.len() == 0 {
        tally_new(options)
    } else {
        tally_add(
            tally_of(records.drop_last(), options),
            records.last().ballot,
            records.last().weight as nat,
        )
    }
}

/// The votes in the open for the choice `c`: the weights of the records
/// with that choice.
pub open spec fn public_total(records: Seq<VoterRecordView>, c: u8) -> nat
    decreases records.len(),
{
    if records.len() == 0 {
        0
    } else {
        public_total(records.drop_last(), c) + (if records.last().choice == c {
            records.last().weight as nat
        } else {
            0
        })
    }
}

/// The weights of all records together.
pub open spec fn total_weight(records: Seq<VoterRecordView>) -> nat
    decreases records.len(),
{
    if records.len() == 0 {
        0
    } else {
        total_weight(records.drop_last()) + records.last().weight as nat
    }
}

/// Whether every ballot has `options` ciphertexts.
pub open spec fn ballots_fit(records: Seq<VoterRecordView>, options: nat) -> bool {
    forall|i: int| 0 <= i < records.len() ==> (#[trigger] records[i]).ballot.len() == options
}

/// The encrypted tally has one slot per option.
pub proof fn lemma_tally_of_len(records: Seq<VoterRecordView>, options: nat)
    ensures
        tally_of(records, options).len() == options,
    decreases records.len(),
{
    if records.len() > 0 {
        lemma_tally_of_len(records.drop_last(), options);
    }
}

/// The index of an account is at most the number of records, and where it
/// is less, the record there is of the account.
pub proof fn lemma_index_of_range(records: Seq<VoterRecordView>, account: Seq<u8>)
    ensures
        0 <= index_of(records, account) <= records.len(),
        index_of(records, account) < records.len() ==> records[index_of(
            records,
            account,
        )].account == account,
    decreases records.len(),
{
    if records.len() > 0 && records[0].account != account {
        lemma_index_of_range(records.drop_first(), account);
    }
}

/// Where the first `i` records are of other accounts, and record `i` is of
/// the account or there is none, `i` is the account's index.
pub proof fn lemma_index_of(records: Seq<VoterRecordView>, account: Seq<u8>, i: int)
    requires
        0 <= i <= records.len(),
        forall|k: int| 0 <= k < i ==> (#[trigger] records[k]).account != account,
        i == records.len() || records[i].account == account,
    ensures
        index_of(records, account) == i,
    decreases records.len(),
{
    if records.len() > 0 && i > 0 {
        let rest = records.drop_first();
        assert forall|k: int| 0 <= k < i - 1 implies (#[trigger] rest[k]).account != account by {
            assert(rest[k] == records[k + 1]);
        }
        lemma_index_of(rest, account, i - 1);
        assert(records[0].account != account);
    }
}

/// A copy of a record.
pub fn copy_record(r: &VoterRecord) -> (c: VoterRecord)
    ensures
        c@ == r@,
{
    VoterRecord {
        account: r.account,
        weight: r.weight,
        choice: r.choice,
        ballot: copy_vec(&r.ballot),
    }
}

/// A copy of the records.
pub fn copy_records(records: &Vec<VoterRecord>) -> (c: Vec<VoterRecord>)
    ensures
        record_values(c@) == record_values(records@),
{
    let mut out: Vec<VoterRecord> = Vec::new();
    let mut i: usize = 0;
    while i < records.len()
        invariant
            i <= records.len(),
            out@.len() == i,
            forall|k: int| 0 <= k < i ==> (#[trigger] out@[k])@ == records@[k]@,
        decreases records.len() - i,
    {
        out.push(copy_record(&records[i]));
        i = i + 1;
    }
    proof {
        assert(record_values(out@) =~= record_values(records@));
    }
    out
}

/// The records after a vote.
pub fn record_vote_exec(records: &Vec<VoterRecord>, rec: VoterRecord) -> (r: (
    Vec<VoterRecord>,
    bool,
))
    ensures
        record_values(r.0@) == record_vote(record_values(records@), rec@),
        r.1 == (index_of(record_values(records@), rec@.account) < records@.len()),
{
    let ghost views = record_values(records@);
    let mut i: usize = 0;
    while i < records.len()
        invariant
            i <= records.len(),
            views == record_values(records@),
            forall|k: int| 0 <= k < i ==> (#[trigger] views[k]).account != rec@.account,
        decreases records.len() - i,
    {
        if records[i].account.0.equals(&rec.account.0) {
            proof {
                assert(views[i as int].account == rec@.account);
                lemma_index_of(views, rec@.account, i as int);
            }
            let mut out = copy_records(records);
            let ghost before = record_values(out@);
            let ghost recv = rec@;
            out.set(i, rec);
            proof {
                assert(record_values(out@) =~= before.update(i as int, recv));
            }
            return (out, true);
        }
        i = i + 1;
    }
    proof {
        lemma_index_of(views, rec@.account, records@.len() as int);
    }
    let mut out = copy_records(records);
    let ghost before = record_values(out@);
    let ghost recv = rec@;
    out.push(rec);
    proof {
        assert(record_values(out@) =~= before.push(recv));
    }
    (out, false)
}

/// The encrypted tally of the records.
pub fn compute_tally(records: &Vec<VoterRecord>, options: usize) -> (t: EncryptedTally)
    requires
        ballots_fit(record_values(records@), options as nat),
    ensures
        t@ == tally_of(record_values(records@), options as nat),
{
    let ghost views = record_values(records@);
    let mut t = EncryptedTally::new(options);
    let mut i: usize = 0;
    proof {
        assert(views.subrange(0, 0) =~= Seq::<VoterRecordView>::empty());
    }
    while i < records.len()
        invariant
            i <= records.len(),
            views == record_values(records@),
            ballots_fit(views, options as nat),
            t@ == tally_of(views.subrange(0, i as int), options as nat),
        decreases records.len() - i,
    {
        proof {
            let next = views.subrange(0, i + 1);
            assert(next.drop_last() =~= views.subrange(0, i as int));
            assert(next.last() == records@[i as int]@);
            lemma_tally_of_len(views.subrange(0, i as int), options as nat);
            assert(views[i as int].ballot.len() == options);
        }
        t.add(&records[i].ballot, records[i].weight);
        i = i + 1;
    }
    proof {
        assert(views.subrange(0, records@.len() as int) =~= views);
    }
    t
}

/// What the manager holds of one proposal: the last vote of each account
/// and, where votes are encrypted, their tally.
#[derive(Debug)]
pub struct ProposalManager {
    records: Vec<VoterRecord>,
    tally: Option<EncryptedTally>,
}

/// The abstract state of one proposal.
pub struct ProposalStateView {
    pub records: Seq<VoterRecordView>,
    pub tally: Option<Seq<(nat, nat)>>,
}

impl View for ProposalManager {
    type V = ProposalStateView;

    closed spec fn view(&self) -> ProposalStateView {
        ProposalStateView {
            records: record_values(self.records@),
            tally: match self.tally {
                Some(t) => Some(t@),
                None => None,
            },
        }
    }
}

/// Where a vote plan stands.
#[derive(Debug)]
pub enum ManagerStatus {
    /// Votes are taken.
    Voting,
    /// The encrypted tally is closed and waits for the committee's shares.
    TallyStarted,
    /// The results are in.
    Finished { results: Vec<TallyResult> },
}

/// The abstract status.
pub enum StatusView {
    Voting,
    TallyStarted,
    Finished { results: Seq<Seq<Option<u64>>> },
}

/// The votes of the results, proposal by proposal.
pub open spec fn result_values(s: Seq<TallyResult>) -> Seq<Seq<Option<u64>>> {
    s.map_values(|r: TallyResult| r.votes@)
}

impl View for ManagerStatus {
    type V = StatusView;

    open spec fn view(&self) -> StatusView {
        match self {
            ManagerStatus::Voting => StatusView::Voting,
            ManagerStatus::TallyStarted => StatusView::TallyStarted,
            ManagerStatus::Finished { results } => StatusView::Finished {
                results: result_values(results@),
            },
        }
    }
}

/// How far a status is on the way from voting to the results.
pub open spec fn status_rank(s: StatusView) -> nat {
    match s {
        StatusView::Voting => 0,
        StatusView::TallyStarted => 1,
        StatusView::Finished { .. } => 2,
    }
}

/// The manager of one vote plan.
#[derive(Debug)]
pub struct VotePlanManager {
    id: VotePlanId,
    plan: VotePlan,
    committee: Vec<CommitteeId>,
    status: ManagerStatus,
    proposals: Vec<ProposalManager>,
    total_stake: u64,
    election_key: ElectionPublicKey,
    crs: Crs,
}

/// The abstract manager.
pub struct ManagerView {
    pub id: VotePlanId,
    pub plan: VotePlanView,
    pub committee: Seq<Seq<u8>>,
    pub status: StatusView,
    pub proposals: Seq<ProposalStateView>,
    pub total_stake: u64,
}

/// The views of a sequence of proposal managers.
pub open spec fn proposal_values(s: Seq<ProposalManager>) -> Seq<ProposalStateView> {
    s.map_values(|p: ProposalManager| p@)
}

impl View for VotePlanManager {
    type V = ManagerView;

    closed spec fn view(&self) -> ManagerView {
        ManagerView {
            id: self.id,
            plan: self.plan@,
            committee: committee_values(self.committee@),
            status: self.status@,
            proposals: proposal_values(self.proposals@),
            total_stake: self.total_stake,
        }
    }
}

/// The election key of a plan: the sum of its committee keys.
pub open spec fn plan_election_key(plan: VotePlanView) -> nat {
    ge_sum(plan.committee_public_keys)
}

/// The state of a proposal before any vote.
pub open spec fn fresh_proposal(options: nat, payload_type: PayloadType) -> ProposalStateView {
    ProposalStateView {
        records: Seq::empty(),
        tally: match payload_type {
            PayloadType::Public => None,
            PayloadType::Private => Some(tally_new(options)),
        },
    }
}

/// The manager of a plan before any vote.
pub open spec fn fresh_manager(plan: VotePlanView, id: VotePlanId, committee: Seq<Seq<u8>>) -> ManagerView {
    ManagerView {
        id,
        plan,
        committee,
        status: StatusView::Voting,
        proposals: Seq::new(
            plan.proposals.len(),
            |i: int| fresh_proposal(plan.proposals[i].options@, plan.payload_type),
        ),
        total_stake: 0,
    }
}

/// Whether the state of a proposal fits its options and the plan's payload
/// type: where votes are encrypted every ballot has one ciphertext per
/// option and the tally is that of the records; else there is no tally.
pub open spec fn proposal_fits(p: ProposalStateView, options: nat, payload_type: PayloadType) -> bool {
    match payload_type {
        PayloadType::Public => p.tally is None,
        PayloadType::Private => ballots_fit(p.records, options) && p.tally == Some(
            tally_of(p.records, options),
        ),
    }
}

/// Whether a manager is consistent: its identifier is that of its plan, it
/// has one state per proposal, and each state fits its proposal.
pub open spec fn manager_fits(m: ManagerView) -> bool {
    &&& m.id@ == vote_plan_id(m.plan)
    &&& m.proposals.len() == m.plan.proposals.len()
    &&& forall|i: int|
        0 <= i < m.proposals.len() ==> proposal_fits(
            #[trigger] m.proposals[i],
            m.plan.proposals[i].options@,
            m.plan.payload_type,
        )
}

/// The state of a proposal after a vote was recorded.
pub open spec fn proposal_after_vote(
    p: ProposalStateView,
    rec: VoterRecordView,
    options: nat,
    payload_type: PayloadType,
) -> ProposalStateView {
    let records = record_vote(p.records, rec);
    ProposalStateView {
        records,
        tally: match payload_type {
            PayloadType::Public => None,
            PayloadType::Private => Some(tally_of(records, options)),
        },
    }
}

/// The record that a payload gives for an account with a weight.
pub open spec fn record_of(account: Seq<u8>, weight: u64, payload: PayloadView) -> VoterRecordView {
    match payload {
        PayloadView::Public { choice } => VoterRecordView {
            account,
            weight,
            choice,
            ballot: Seq::empty(),
        },
        PayloadView::Private { encrypted_vote, .. } => VoterRecordView {
            account,
            weight,
            choice: 0,
            ballot: encrypted_vote,
        },
    }
}

/// Whether a payload is acceptable for a proposal with `options` options:
/// a choice in the open is one of the options; an encrypted vote has one
/// ciphertext per option and its proof holds under the plan's election key,
/// in the context of the plan's identifier.
pub open spec fn payload_error(m: ManagerView, options: Options, payload: PayloadView) -> Option<
    VoteError,
> {
    match payload {
        PayloadView::Public { choice } => if (choice as nat) < options@ {
            None
        } else {
            Some(VoteError::InvalidChoice { options, choice: Choice::new_spec(choice) })
        },
        PayloadView::Private { encrypted_vote, proof } => if encrypted_vote.len() == options@
            && verify_spec(
            crs_from_hash(m.id@),
            plan_election_key(m.plan),
            encrypted_vote,
            proof,
        ) {
            None
        } else {
            Some(VoteError::VoteVerificationError)
        },
    }
}

/// Why a vote is refused, if it is: in this order, it names another plan;
/// the plan has no such proposal; the date is outside the time of voting;
/// the plan is not taking votes; the vote is cast in the wrong way; the
/// payload is not acceptable.
pub open spec fn vote_error(m: ManagerView, date: BlockDate, cast: VoteCastView) -> Option<
    VoteError,
> {
    if cast.vote_plan != m.id {
        Some(VoteError::InvalidVotePlan { expected: m.id, received: cast.vote_plan })
    } else if cast.proposal_index as int >= m.plan.proposals.len() {
        Some(
            VoteError::InvalidVoteProposal {
                num_proposals: m.plan.proposals.len() as usize,
                proposal_index: cast.proposal_index,
            },
        )
    } else if !(date_le(m.plan.vote_start, date) && date_le(date, m.plan.vote_end)) {
        Some(
            VoteError::NotVoteTime {
                start: m.plan.vote_start,
                end: m.plan.vote_end,
                provided: date,
            },
        )
    } else if m.status != StatusView::Voting {
        Some(VoteError::VotingClosed)
    } else if payload_type_of(cast.payload) != m.plan.payload_type {
        Some(
            VoteError::InvalidPayloadType {
                expected: m.plan.payload_type,
                received: payload_type_of(cast.payload),
            },
        )
    } else {
        payload_error(m, m.plan.proposals[cast.proposal_index as int].options, cast.payload)
    }
}

/// The manager after a vote that is not refused: the state of the proposal
/// voted on records the vote, with the weight of the voter; everything else
/// is unchanged.
pub open spec fn manager_after_vote(
    m: ManagerView,
    account: Seq<u8>,
    weight: u64,
    cast: VoteCastView,
) -> ManagerView {
    let i = cast.proposal_index as int;
    ManagerView {
        proposals: m.proposals.update(
            i,
            proposal_after_vote(
                m.proposals[i],
                record_of(account, weight, cast.payload),
                m.plan.proposals[i].options@,
                m.plan.payload_type,
            ),
        ),
        ..m
    }
}

impl ProposalManager {
    fn fresh(options: usize, payload_type: PayloadType) -> (r: ProposalManager)
        ensures
            r@ == fresh_proposal(options as nat, payload_type),
    {
        let r = ProposalManager {
            records: Vec::new(),
            tally: match payload_type {
                PayloadType::Public => None,
                PayloadType::Private => Some(EncryptedTally::new(options)),
            },
        };
        proof {
            assert(r@.records =~= Seq::<VoterRecordView>::empty());
        }
        r
    }

    fn duplicate(&self) -> (r: ProposalManager)
        ensures
            r@ == self@,
    {
        ProposalManager {
            records: copy_records(&self.records),
            tally: match &self.tally {
                Some(t) => Some(t.duplicate()),
                None => None,
            },
        }
    }

    fn after_vote(&self, rec: VoterRecord, options: usize, payload_type: PayloadType) -> (r:
        ProposalManager)
        requires
            proposal_fits(self@, options as nat, payload_type),
            payload_type == PayloadType::Private ==> rec@.ballot.len() == options,
        ensures
            r@ == proposal_after_vote(self@, rec@, options as nat, payload_type),
            proposal_fits(r@, options as nat, payload_type),
    {
        let ghost recv = rec@;
        let ghost old_records = record_values(self.records@);
        let (records, _replaced) = record_vote_exec(&self.records, rec);
        match payload_type {
            PayloadType::Public => ProposalManager { records, tally: None },
            PayloadType::Private => {
                proof {
                    let i = index_of(old_records, recv.account);
                    let next = record_vote(old_records, recv);
                    lemma_index_of_range(old_records, recv.account);
                    assert forall|k: int| 0 <= k < next.len() implies (#[trigger] next[k]).ballot.len()
                        == options by {
                        if i < old_records.len() {
                            if k != i {
                                assert(next[k] == old_records[k]);
                            }
                        } else {
                            if k < old_records.len() {
                                assert(next[k] == old_records[k]);
                            }
                        }
                    }
                }
                let tally = compute_tally(&records, options);
                ProposalManager { records, tally: Some(tally) }
            },
        }
    }
}

fn copy_proposals(proposals: &Vec<ProposalManager>) -> (r: Vec<ProposalManager>)
    ensures
        proposal_values(r@) == proposal_values(proposals@),
{
    let mut out: Vec<ProposalManager> = Vec::new();
    let mut i: usize = 0;
    while i < proposals.len()
        invariant
            i <= proposals.len(),
            out@.len() == i,
            forall|k: int| 0 <= k < i ==> (#[trigger] out@[k])@ == proposals@[k]@,
        decreases proposals.len() - i,
    {
        out.push(proposals[i].duplicate());
        i = i + 1;
    }
    proof {
        assert(proposal_values(out@) =~= proposal_values(proposals@));
    }
    out
}

impl VotePlanManager {
    #[verifier::type_invariant]
    spec fn inv(self) -> bool {
        &&& manager_fits(self@)
        &&& self.election_key@ == plan_election_key(self.plan@)
        &&& self.crs@ == crs_from_hash(self.id@)
        &&& self.plan.well_formed()
        &&& self.status@ == StatusView::TallyStarted ==> self.plan@.payload_type
            == PayloadType::Private
    }

    /// The manager of a plan before any vote, with the given committee.
    pub fn new(plan: VotePlan, committee: Vec<CommitteeId>) -> (r: VotePlanManager)
        requires
            plan.well_formed(),
        ensures
            r@ == fresh_manager(plan@, r@.id, committee_values(committee@)),
            r@.id@ == vote_plan_id(plan@),
            manager_fits(r@),
    {
        let id = plan.to_id();
        let id_bytes = id.to_bytes();
        let crs = Crs::from_hash(id_bytes.as_slice());
        let election_key = ElectionPublicKey::from_participants(
            plan.committee_public_keys().as_slice(),
        );
        let payload_type = plan.payload_type();
        let count = plan.proposals().len();
        let mut proposals: Vec<ProposalManager> = Vec::new();
        let mut i: usize = 0;
        while i < count
            invariant
                i <= count,
                count == plan@.proposals.len(),
                payload_type == plan@.payload_type,
                proposals@.len() == i,
                forall|k: int|
                    0 <= k < i ==> (#[trigger] proposals@[k])@ == fresh_proposal(
                        plan@.proposals[k].options@,
                        plan@.payload_type,
                    ),
            decreases count - i,
        {
            let options = match plan.proposals().get(i) {
                Some(p) => p.options().as_byte() as usize,
                None => vstd::pervasive::unreached(),
            };
            proposals.push(ProposalManager::fresh(options, payload_type));
            i = i + 1;
        }
        proof {
            let pv = proposal_values(proposals@);
            let fm = fresh_manager(plan@, id, committee_values(committee@));
            assert(pv =~= fm.proposals);
            assert forall|k: int| 0 <= k < pv.len() implies proposal_fits(
                #[trigger] pv[k],
                plan@.proposals[k].options@,
                plan@.payload_type,
            ) by {
                assert(pv[k].records.len() == 0);
            }
        }
        VotePlanManager {
            id,
            plan,
            committee,
            status: ManagerStatus::Voting,
            proposals,
            total_stake: 0,
            election_key,
            crs,
        }
    }

    /// A manager is consistent.
    pub fn check_consistent(&self)
        ensures
            manager_fits(self@),
    {
        proof {
            use_type_invariant(self);
        }
    }

    /// The identifier of the plan.
    pub fn id(&self) -> (r: &VotePlanId)
        ensures
            *r == self@.id,
    {
        &self.id
    }

    /// The plan.
    pub fn plan(&self) -> (r: &VotePlan)
        ensures
            r@ == self@.plan,
    {
        &self.plan
    }

    /// The encrypted tally of the proposal at `index`, where the plan is
    /// voted encrypted and has such a proposal.
    pub fn encrypted_tally(&self, index: usize) -> (r: Option<EncryptedTally>)
        ensures
            match r {
                Some(t) => index < self@.proposals.len() && self@.proposals[index as int].tally
                    == Some(t@),
                None => index >= self@.proposals.len() || self@.proposals[index as int].tally
                    is None,
            },
    {
        if index >= self.proposals.len() {
            return None;
        }
        match &self.proposals[index].tally {
            Some(t) => Some(t.duplicate()),
            None => None,
        }
    }

    /// Where the plan stands.
    pub fn status(&self) -> (r: &ManagerStatus)
        ensures
            r@ == self@.status,
    {
        &self.status
    }

    /// Casts a vote for `identifier` at `block_date`, with the weight that
    /// `stake` gives the account. The receiver stays as it is: the manager
    /// after the vote is returned.
    pub fn vote(
        &self,
        block_date: BlockDate,
        identifier: UnspecifiedAccountIdentifier,
        stake: &StakeControl,
        cast: VoteCast,
    ) -> (r: Result<VotePlanManager, VoteError>)
        ensures
            match r {
                Ok(next) => vote_error(self@, block_date, cast@) is None && next@
                    == manager_after_vote(
                    self@,
                    identifier@,
                    crate::stake::stake_of(stake@, identifier@),
                    cast@,
                ) && manager_fits(next@),
                Err(e) => vote_error(self@, block_date, cast@) == Some(e),
            },
    {
        proof {
            use_type_invariant(self);
        }
        if !cast.vote_plan().equals(&self.id) {
            return Err(VoteError::InvalidVotePlan { expected: self.id, received: *cast.vote_plan() });
        }
        let index = cast.proposal_index() as usize;
        let proposal = match self.plan.proposals().get(index) {
            Some(p) => p,
            None => {
                return Err(
                    VoteError::InvalidVoteProposal {
                        num_proposals: self.plan.proposals().len(),
                        proposal_index: cast.proposal_index(),
                    },
                );
            },
        };
        if !self.plan.can_vote(block_date) {
            return Err(
                VoteError::NotVoteTime {
                    start: self.plan.vote_start(),
                    end: self.plan.vote_end(),
                    provided: block_date,
                },
            );
        }
        match &self.status {
            ManagerStatus::Voting => {},
            _ => {
                return Err(VoteError::VotingClosed);
            },
        }
        let payload_type = self.plan.payload_type();
        if cast.payload().payload_type() != payload_type {
            return Err(
                VoteError::InvalidPayloadType {
                    expected: payload_type,
                    received: cast.payload().payload_type(),
                },
            );
        }
        let options = proposal.options();
        let weight = stake.stake_for(&identifier);
        let ghost castv = cast@;
        let rec = match cast.into_payload() {
            Payload::Public { choice } => {
                if !options.validate(choice) {
                    proof {
                        Choice::lemma_new_spec(choice@);
                        assert(choice == Choice::new_spec(choice@)) by {
                            choice.lemma_is_new_spec();
                        }
                    }
                    return Err(VoteError::InvalidChoice { options, choice });
                }
                VoterRecord { account: identifier, weight, choice, ballot: Vec::new() }
            },
            Payload::Private { encrypted_vote, proof } => {
                if encrypted_vote.len() != options.as_byte() as usize || !verify(
                    &self.crs,
                    &self.election_key.0,
                    &encrypted_vote,
                    &proof,
                ) {
                    return Err(VoteError::VoteVerificationError);
                }
                VoterRecord {
                    account: identifier,
                    weight,
                    choice: Choice::new(0),
                    ballot: encrypted_vote,
                }
            },
        };
        proof {
            assert(rec@ == record_of(identifier@, weight, castv.payload)) by {
                assert(rec@.ballot =~= record_of(identifier@, weight, castv.payload).ballot);
            }
            assert(proposal_fits(
                proposal_values(self.proposals@)[index as int],
                self.plan@.proposals[index as int].options@,
                self.plan@.payload_type,
            ));
        }
        let updated = self.proposals[index].after_vote(
            rec,
            options.as_byte() as usize,
            payload_type,
        );
        let mut proposals = copy_proposals(&self.proposals);
        let ghost before = proposal_values(proposals@);
        let ghost updated_view = updated@;
        proposals.set(index, updated);
        proof {
            let pv = proposal_values(proposals@);
            assert(pv =~= before.update(index as int, updated_view));
            assert forall|k: int| 0 <= k < pv.len() implies proposal_fits(
                #[trigger] pv[k],
                self.plan@.proposals[k].options@,
                self.plan@.payload_type,
            ) by {
                if k != index {
                    assert(pv[k] == proposal_values(self.proposals@)[k]);
                }
            }
        }
        let plan = self.plan.clone_plan();
        Ok(
            VotePlanManager {
                id: self.id,
                plan,
                committee: copy_vec(&self.committee),
                status: ManagerStatus::Voting,
                proposals,
                total_stake: self.total_stake,
                election_key: self.election_key,
                crs: self.crs,
            },
        )
    }
}

/// Why the committee cannot act on a plan at a date, if it cannot: the date
/// is outside the committee's time, or the signer is no member.
pub open spec fn committee_error(m: ManagerView, date: BlockDate, committee_id: Seq<u8>) -> Option<
    VoteError,
> {
    if !(date_le(m.plan.vote_end, date) && date_le(date, m.plan.committee_end)) {
        Some(
            VoteError::NotCommitteeTime {
                start: m.plan.vote_end,
                end: m.plan.committee_end,
                provided: date,
            },
        )
    } else if !m.committee.contains(committee_id) {
        Some(VoteError::InvalidTallyCommittee)
    } else {
        None
    }
}

/// Why the encrypted tally cannot be started, if it cannot: the committee
/// cannot act, the plan is voted in the open, or it is not taking votes any
/// more.
pub open spec fn start_tally_error(m: ManagerView, date: BlockDate, committee_id: Seq<u8>) -> Option<
    VoteError,
> {
    if committee_error(m, date, committee_id) is Some {
        committee_error(m, date, committee_id)
    } else if m.plan.payload_type != PayloadType::Private {
        Some(VoteError::PrivateTallyExpected)
    } else if m.status != StatusView::Voting {
        Some(VoteError::VotingClosed)
    } else {
        None
    }
}

/// The manager after the encrypted tally was started: it waits for the
/// shares, and remembers the whole stake of that moment.
pub open spec fn manager_after_start(m: ManagerView, total_stake: u64) -> ManagerView {
    ManagerView { status: StatusView::TallyStarted, total_stake, ..m }
}

/// The results in the open of one proposal: for each option the weights of
/// the records that chose it.
pub open spec fn public_results(records: Seq<VoterRecordView>, options: nat) -> Seq<Option<u64>> {
    Seq::new(options, |c: int| Some(public_total(records, c as u8) as u64))
}

/// Whether the votes of every option fit in 64 bits.
pub open spec fn public_results_fit(records: Seq<VoterRecordView>, options: nat) -> bool {
    forall|c: int| 0 <= c < options ==> #[trigger] public_total(records, c as u8) <= u64::MAX
}

/// Whether the votes in the open of every proposal fit.
pub open spec fn all_public_results_fit(m: ManagerView) -> bool {
    forall|i: int|
        0 <= i < m.proposals.len() ==> public_results_fit(
            (#[trigger] m.proposals[i]).records,
            m.plan.proposals[i].options@,
        )
}

/// Why a plan cannot be tallied in the open, if it cannot: the committee
/// cannot act, the plan is voted encrypted, it is not taking votes any
/// more, or the votes of some option do not fit in 64 bits.
pub open spec fn public_tally_error(m: ManagerView, date: BlockDate, committee_id: Seq<u8>) -> Option<
    VoteError,
> {
    if committee_error(m, date, committee_id) is Some {
        committee_error(m, date, committee_id)
    } else if m.plan.payload_type != PayloadType::Public {
        Some(VoteError::PublicTallyExpected)
    } else if m.status != StatusView::Voting {
        Some(VoteError::VotingClosed)
    } else if !all_public_results_fit(m) {
        Some(VoteError::TallyOverflow)
    } else {
        None
    }
}

/// Whether every option of a result has a count.
pub open spec fn all_counted(r: Seq<Option<u64>>) -> bool {
    forall|j: int| 0 <= j < r.len() ==> (#[trigger] r[j]) is Some
}

/// The counts of a result, with zero where an option has none.
pub open spec fn counts(r: Seq<Option<u64>>) -> Seq<u64> {
    Seq::new(
        r.len(),
        |j: int|
            match r[j] {
                Some(v) => v,
                None => 0,
            },
    )
}

/// Whether the proposal is accepted on its result: its action is one of
/// governance, every option has a count, and the counts meet the criteria of
/// the action.
pub open spec fn proposal_accepted(
    g: Governance,
    total_stake: u64,
    action: VoteAction,
    r: Seq<Option<u64>>,
) -> bool {
    match criteria_for(g, action) {
        None => false,
        Some(c) => all_counted(r) && is_accepted(c, total_stake, counts(r)),
    }
}

/// The actions of the accepted proposals among the first `upto`, in the
/// order of the proposals.
pub open spec fn accepted_actions(
    g: Governance,
    total_stake: u64,
    proposals: Seq<Proposal>,
    results: Seq<Seq<Option<u64>>>,
    upto: nat,
) -> Seq<VoteAction>
    decreases upto,
{
    if upto == 0 {
        Seq::empty()
    } else {
        let before = accepted_actions(g, total_stake, proposals, results, (upto - 1) as nat);
        if proposal_accepted(g, total_stake, proposals[upto - 1].action, results[upto - 1]) {
            before.push(proposals[upto - 1].action)
        } else {
            before
        }
    }
}

/// The manager after its results are in.
pub open spec fn manager_after_results(
    m: ManagerView,
    total_stake: u64,
    results: Seq<Seq<Option<u64>>>,
) -> ManagerView {
    ManagerView { status: StatusView::Finished { results }, total_stake, ..m }
}

/// The results in the open of all proposals.
pub open spec fn all_public_results(m: ManagerView) -> Seq<Seq<Option<u64>>> {
    Seq::new(
        m.proposals.len(),
        |i: int| public_results(m.proposals[i].records, m.plan.proposals[i].options@),
    )
}

fn public_total_exec(records: &Vec<VoterRecord>, c: u8) -> (r: Option<u64>)
    ensures
        match r {
            Some(v) => v == public_total(record_values(records@), c),
            None => public_total(record_values(records@), c) > u64::MAX,
        },
{
    let ghost views = record_values(records@);
    let mut total: u64 = 0;
    let mut i: usize = 0;
    while i < records.len()
        invariant
            i <= records.len(),
            views == record_values(records@),
            total == public_total(views.subrange(0, i as int), c),
        decreases records.len() - i,
    {
        proof {
            let next = views.subrange(0, i + 1);
            assert(next.drop_last() =~= views.subrange(0, i as int));
            assert(next.last() == records@[i as int]@);
        }
        if records[i].choice.as_byte() == c {
            let w = records[i].weight;
            if total > u64::MAX - w {
                proof {
                    lemma_public_total_grows(views, c, (i + 1) as int);
                }
                return None;
            }
            total = total + w;
        }
        i = i + 1;
    }
    proof {
        assert(views.subrange(0, records@.len() as int) =~= views);
    }
    Some(total)
}

/// The votes of a choice over a prefix of the records are at most those
/// over all records.
pub proof fn lemma_public_total_grows(records: Seq<VoterRecordView>, c: u8, upto: int)
    requires
        0 <= upto <= records.len(),
    ensures
        public_total(records.subrange(0, upto), c) <= public_total(records, c),
    decreases records.len() - upto,
{
    if upto == records.len() {
        assert(records.subrange(0, upto) =~= records);
    } else {
        lemma_public_total_grows(records, c, upto + 1);
        let next = records.subrange(0, upto + 1);
        assert(next.drop_last() =~= records.subrange(0, upto));
    }
}

fn public_results_exec(records: &Vec<VoterRecord>, options: u8) -> (r: Option<TallyResult>)
    ensures
        match r {
            Some(t) => public_results_fit(record_values(records@), options as nat) && t.votes@
                == public_results(record_values(records@), options as nat),
            None => !public_results_fit(record_values(records@), options as nat),
        },
{
    let ghost views = record_values(records@);
    let mut votes: Vec<Option<u64>> = Vec::new();
    let mut c: u8 = 0;
    while c < options
        invariant
            c <= options,
            views == record_values(records@),
            votes@.len() == c,
            forall|k: int| 0 <= k < c ==> #[trigger] public_total(views, k as u8) <= u64::MAX,
            forall|k: int|
                0 <= k < c ==> votes@[k] == Some(#[trigger] public_total(views, k as u8) as u64),
        decreases options - c,
    {
        match public_total_exec(records, c) {
            Some(v) => {
                votes.push(Some(v));
            },
            None => {
                proof {
                    assert(public_total(views, (c as int) as u8) > u64::MAX);
                }
                return None;
            },
        }
        c = c + 1;
    }
    proof {
        assert(votes@ =~= public_results(views, options as nat));
    }
    Some(TallyResult { votes, options: std::ops::Range { start: 0, end: options } })
}

fn counts_exec(votes: &Vec<Option<u64>>) -> (r: Option<Vec<u64>>)
    ensures
        match r {
            Some(c) => all_counted(votes@) && c@ == counts(votes@),
            None => !all_counted(votes@),
        },
{
    let mut out: Vec<u64> = Vec::new();
    let mut j: usize = 0;
    while j < votes.len()
        invariant
            j <= votes.len(),
            out@.len() == j,
            forall|k: int| 0 <= k < j ==> (#[trigger] votes@[k]) is Some,
            forall|k: int| 0 <= k < j ==> out@[k] == counts(votes@)[k],
        decreases votes.len() - j,
    {
        match votes[j] {
            Some(v) => {
                out.push(v);
            },
            None => {
                return None;
            },
        }
        j = j + 1;
    }
    proof {
        assert(out@ =~= counts(votes@));
    }
    Some(out)
}

fn accepted_actions_exec(
    governance: &Governance,
    total_stake: u64,
    plan: &VotePlan,
    results: &Vec<TallyResult>,
) -> (r: Vec<VoteAction>)
    requires
        results@.len() == plan@.proposals.len(),
    ensures
        r@ == accepted_actions(
            *governance,
            total_stake,
            plan@.proposals,
            result_values(results@),
            results@.len(),
        ),
{
    let mut out: Vec<VoteAction> = Vec::new();
    let mut i: usize = 0;
    while i < results.len()
        invariant
            i <= results.len(),
            results@.len() == plan@.proposals.len(),
            out@ == accepted_actions(
                *governance,
                total_stake,
                plan@.proposals,
                result_values(results@),
                i as nat,
            ),
        decreases results.len() - i,
    {
        let action = match plan.proposals().get(i) {
            Some(p) => p.action(),
            None => vstd::pervasive::unreached(),
        };
        let accepted = match governance.acceptance_criteria_for(action) {
            None => false,
            Some(c) => match counts_exec(&results[i].votes) {
                Some(cs) => c.accepts(total_stake, &cs),
                None => false,
            },
        };
        proof {
            assert(result_values(results@)[i as int] == results@[i as int].votes@);
        }
        if accepted {
            out.push(action);
        }
        i = i + 1;
    }
    out
}

impl VotePlanManager {
    fn committee_check(&self, block_date: BlockDate, committee_id: &CommitteeId) -> (r: Option<
        VoteError,
    >)
        ensures
            r == committee_error(self@, block_date, committee_id@),
    {
        if !self.plan.can_committee(block_date) {
            return Some(
                VoteError::NotCommitteeTime {
                    start: self.plan.vote_end(),
                    end: self.plan.committee_end(),
                    provided: block_date,
                },
            );
        }
        if !is_committee_member(&self.committee, committee_id) {
            return Some(VoteError::InvalidTallyCommittee);
        }
        None
    }

    fn is_voting(&self) -> (r: bool)
        ensures
            r == (self@.status == StatusView::Voting),
    {
        match &self.status {
            ManagerStatus::Voting => true,
            _ => false,
        }
    }

    fn with_status(&self, status: ManagerStatus, total_stake: u64) -> (r: VotePlanManager)
        requires
            status@ == StatusView::TallyStarted ==> self@.plan.payload_type == PayloadType::Private,
        ensures
            r@ == (ManagerView { status: status@, total_stake, ..self@ }),
            manager_fits(r@),
    {
        proof {
            use_type_invariant(self);
        }
        VotePlanManager {
            id: self.id,
            plan: self.plan.clone_plan(),
            committee: copy_vec(&self.committee),
            status,
            proposals: copy_proposals(&self.proposals),
            total_stake,
            election_key: self.election_key,
            crs: self.crs,
        }
    }

    /// Starts the encrypted tally: the plan takes no more votes and waits
    /// for the committee's shares. The receiver stays as it is.
    pub fn start_private_tally(
        &self,
        block_date: BlockDate,
        stake: &StakeControl,
        committee_id: CommitteeId,
    ) -> (r: Result<VotePlanManager, VoteError>)
        ensures
            match r {
                Ok(next) => start_tally_error(self@, block_date, committee_id@) is None && next@
                    == manager_after_start(self@, clamp_u64(crate::stake::total_stake(stake@)))
                    && manager_fits(next@),
                Err(e) => start_tally_error(self@, block_date, committee_id@) == Some(e),
            },
    {
        match self.committee_check(block_date, &committee_id) {
            Some(e) => {
                return Err(e);
            },
            None => {},
        }
        match self.plan.payload_type() {
            PayloadType::Private => {},
            PayloadType::Public => {
                return Err(VoteError::PrivateTallyExpected);
            },
        }
        if !self.is_voting() {
            return Err(VoteError::VotingClosed);
        }
        Ok(self.with_status(ManagerStatus::TallyStarted, stake.assigned()))
    }

    /// Tallies a plan voted in the open: the results are the weights of the
    /// recorded votes, option by option, and the actions of the accepted
    /// proposals are returned for the caller to apply, in the order of the
    /// proposals. The receiver stays as it is.
    pub fn public_tally(
        &self,
        block_date: BlockDate,
        stake: &StakeControl,
        governance: &Governance,
        committee_id: CommitteeId,
    ) -> (r: Result<(VotePlanManager, Vec<VoteAction>), VoteError>)
        ensures
            match r {
                Ok((next, actions)) => public_tally_error(self@, block_date, committee_id@)
                    is None && next@ == manager_after_results(
                    self@,
                    clamp_u64(crate::stake::total_stake(stake@)),
                    all_public_results(self@),
                ) && actions@ == accepted_actions(
                    *governance,
                    clamp_u64(crate::stake::total_stake(stake@)),
                    self@.plan.proposals,
                    all_public_results(self@),
                    self@.plan.proposals.len(),
                ) && manager_fits(next@),
                Err(e) => public_tally_error(self@, block_date, committee_id@) == Some(e),
            },
    {
        proof {
            use_type_invariant(self);
        }
        match self.committee_check(block_date, &committee_id) {
            Some(e) => {
                return Err(e);
            },
            None => {},
        }
        match self.plan.payload_type() {
            PayloadType::Public => {},
            PayloadType::Private => {
                return Err(VoteError::PublicTallyExpected);
            },
        }
        if !self.is_voting() {
            return Err(VoteError::VotingClosed);
        }
        let mut results: Vec<TallyResult> = Vec::new();
        let mut i: usize = 0;
        while i < self.proposals.len()
            invariant
                i <= self.proposals.len(),
                self.proposals@.len() == self@.plan.proposals.len(),
                self@.proposals == proposal_values(self.proposals@),
                self.plan@ == self@.plan,
                committee_error(self@, block_date, committee_id@) is None,
                self@.plan.payload_type == PayloadType::Public,
                self@.status == StatusView::Voting,
                results@.len() == i,
                forall|k: int|
                    0 <= k < i ==> public_results_fit(
                        (#[trigger] self@.proposals[k]).records,
                        self@.plan.proposals[k].options@,
                    ),
                forall|k: int|
                    0 <= k < i ==> (#[trigger] results@[k]).votes@ == public_results(
                        self@.proposals[k].records,
                        self@.plan.proposals[k].options@,
                    ),
            decreases self.proposals.len() - i,
        {
            let options = match self.plan.proposals().get(i) {
                Some(p) => p.options().as_byte(),
                None => vstd::pervasive::unreached(),
            };
            proof {
                assert(self@.proposals[i as int].records == record_values(
                    self.proposals@[i as int].records@,
                ));
            }
            match public_results_exec(&self.proposals[i].records, options) {
                Some(t) => {
                    results.push(t);
                },
                None => {
                    proof {
                        assert(!public_results_fit(
                            self@.proposals[i as int].records,
                            self@.plan.proposals[i as int].options@,
                        ));
                    }
                    return Err(VoteError::TallyOverflow);
                },
            }
            i = i + 1;
        }
        proof {
            assert(result_values(results@) =~= all_public_results(self@));
        }
        let total = stake.assigned();
        let actions = accepted_actions_exec(governance, total, &self.plan, &results);
        let next = self.with_status(ManagerStatus::Finished { results }, total);
        Ok((next, actions))
    }
}

/// Whether the shares of one member fit the plan: the member is of the
/// committee, and has one share per proposal, with one element per option.
pub open spec fn member_shares_fit(m: ManagerView, s: MemberSharesView) -> bool {
    &&& m.committee.contains(s.member)
    &&& s.shares.len() == m.plan.proposals.len()
    &&& forall|i: int|
        0 <= i < s.shares.len() ==> (#[trigger] s.shares[i]).len() == m.plan.proposals[i].options@
}

/// Whether no member occurs twice.
pub open spec fn distinct_members(shares: Seq<MemberSharesView>) -> bool {
    forall|a: int, b: int|
        0 <= a < b < shares.len() ==> (#[trigger] shares[a]).member != (#[trigger] shares[b]).member
}

/// Whether the shares of all members fit the plan, and no member occurs
/// twice.
pub open spec fn shares_fit(m: ManagerView, shares: Seq<MemberSharesView>) -> bool {
    &&& forall|j: int| 0 <= j < shares.len() ==> member_shares_fit(m, #[trigger] shares[j])
    &&& distinct_members(shares)
}

/// Number of members whose shares open a tally of the plan: all that have a
/// key in the plan.
pub open spec fn threshold(m: ManagerView) -> nat {
    m.plan.committee_public_keys.len()
}

/// Why the encrypted tally cannot be opened, if it cannot: it was not
/// started or is finished; a member's shares do not fit, or a member occurs
/// twice; or fewer members gave shares than the threshold.
pub open spec fn finalize_error(m: ManagerView, shares: Seq<MemberSharesView>) -> Option<VoteError> {
    if m.status != StatusView::TallyStarted {
        Some(VoteError::TallyNotStarted)
    } else if !shares_fit(m, shares) {
        Some(VoteError::InvalidDecryptShare)
    } else if shares.len() < threshold(m) {
        Some(
            VoteError::NotEnoughShares {
                threshold: threshold(m) as usize,
                provided: shares.len() as usize,
            },
        )
    } else {
        None
    }
}

/// The shares of all members for proposal `i`.
pub open spec fn proposal_shares(shares: Seq<MemberSharesView>, i: int) -> Seq<Seq<nat>> {
    Seq::new(shares.len(), |j: int| shares[j].shares[i])
}

/// The budget with which the tally of a proposal is decoded: one more than
/// the weights of its records, capped at the largest amount.
pub open spec fn decode_budget(records: Seq<VoterRecordView>) -> u64 {
    clamp_u64(total_weight(records) + 1)
}

/// The result of proposal `i`, opened with the shares: each slot of the
/// encrypted tally, less the members' shares, decoded within the budget.
pub open spec fn private_result(m: ManagerView, shares: Seq<MemberSharesView>, i: int) -> Seq<
    Option<u64>,
> {
    let decoded = decode_slots(
        opened_slots(tally_state(m.proposals[i].tally.unwrap()), proposal_shares(shares, i)),
        TALLY_TABLE_SIZE as nat,
        decode_budget(m.proposals[i].records) as nat,
    );
    Seq::new(
        m.plan.proposals[i].options@,
        |j: int|
            match decoded[j] {
                Some(v) => Some(v as u64),
                None => None,
            },
    )
}

/// The results of all proposals, opened with the shares.
pub open spec fn all_private_results(m: ManagerView, shares: Seq<MemberSharesView>) -> Seq<
    Seq<Option<u64>>,
> {
    Seq::new(m.proposals.len(), |i: int| private_result(m, shares, i))
}

fn decode_budget_exec(records: &Vec<VoterRecord>) -> (r: u64)
    ensures
        r == decode_budget(record_values(records@)),
{
    let ghost views = record_values(records@);
    let mut total: u64 = 0;
    let mut i: usize = 0;
    while i < records.len()
        invariant
            i <= records.len(),
            views == record_values(records@),
            total == clamp_u64(total_weight(views.subrange(0, i as int))),
        decreases records.len() - i,
    {
        proof {
            let next = views.subrange(0, i + 1);
            assert(next.drop_last() =~= views.subrange(0, i as int));
            assert(next.last() == records@[i as int]@);
        }
        let w = records[i].weight;
        total = if total <= u64::MAX - w {
            total + w
        } else {
            u64::MAX
        };
        i = i + 1;
    }
    proof {
        assert(views.subrange(0, records@.len() as int) =~= views);
    }
    if total < u64::MAX {
        total + 1
    } else {
        u64::MAX
    }
}

fn member_shares_check(
    manager: &VotePlanManager,
    member: &MemberShares,
) -> (r: bool)
    ensures
        r == member_shares_fit(manager@, member@),
{
    if !is_committee_member(&manager.committee, &member.member) {
        return false;
    }
    let count = manager.plan.proposals().len();
    if member.shares.len() != count {
        return false;
    }
    let mut i: usize = 0;
    while i < count
        invariant
            i <= count,
            count == manager@.plan.proposals.len(),
            manager.plan@ == manager@.plan,
            member.shares@.len() == count,
            member@.shares.len() == count,
            forall|k: int|
                0 <= k < i ==> (#[trigger] member@.shares[k]).len()
                    == manager@.plan.proposals[k].options@,
        decreases count - i,
    {
        let options = match manager.plan.proposals().get(i) {
            Some(p) => p.options().as_byte() as usize,
            None => vstd::pervasive::unreached(),
        };
        proof {
            assert(member@.shares[i as int] == member.shares@[i as int]@);
        }
        if member.shares[i].options() != options {
            return false;
        }
        i = i + 1;
    }
    true
}

fn distinct_members_check(members: &Vec<MemberShares>) -> (r: bool)
    ensures
        r == distinct_members(members@.map_values(|m: MemberShares| m@)),
{
    let ghost views = members@.map_values(|m: MemberShares| m@);
    let mut b: usize = 0;
    while b < members.len()
        invariant
            b <= members.len(),
            views == members@.map_values(|m: MemberShares| m@),
            forall|x: int, y: int|
                0 <= x < y < b ==> (#[trigger] views[x]).member != (#[trigger] views[y]).member,
        decreases members.len() - b,
    {
        let mut a: usize = 0;
        while a < b
            invariant
                a <= b,
                b < members.len(),
                views == members@.map_values(|m: MemberShares| m@),
                forall|x: int| 0 <= x < a ==> (#[trigger] views[x]).member != views[b as int].member,
            decreases b - a,
        {
            if members[a].member.equals(&members[b].member) {
                proof {
                    assert(views[a as int].member == views[b as int].member);
                }
                return false;
            }
            a = a + 1;
        }
        b = b + 1;
    }
    true
}

impl VotePlanManager {
    fn shares_check(&self, shares: &DecryptedPrivateTally) -> (r: bool)
        ensures
            r == shares_fit(self@, shares@),
    {
        let mut j: usize = 0;
        while j < shares.members.len()
            invariant
                j <= shares.members.len(),
                forall|k: int| 0 <= k < j ==> member_shares_fit(self@, #[trigger] shares@[k]),
            decreases shares.members.len() - j,
        {
            proof {
                assert(shares@[j as int] == shares.members@[j as int]@);
            }
            if !member_shares_check(self, &shares.members[j]) {
                return false;
            }
            j = j + 1;
        }
        distinct_members_check(&shares.members)
    }

    fn private_result_exec(&self, shares: &DecryptedPrivateTally, i: usize) -> (r: TallyResult)
        requires
            i < self@.proposals.len(),
            self@.plan.payload_type == PayloadType::Private,
            shares_fit(self@, shares@),
        ensures
            r.votes@ == private_result(self@, shares@, i as int),
    {
        proof {
            use_type_invariant(self);
            assert(proposal_fits(
                self@.proposals[i as int],
                self@.plan.proposals[i as int].options@,
                self@.plan.payload_type,
            ));
            lemma_tally_of_len(
                self@.proposals[i as int].records,
                self@.plan.proposals[i as int].options@,
            );
        }
        let state = match &self.proposals[i].tally {
            Some(t) => t.state(),
            None => vstd::pervasive::unreached(),
        };
        let mut slot_shares: Vec<TallyDecryptShare> = Vec::new();
        let mut j: usize = 0;
        while j < shares.members.len()
            invariant
                j <= shares.members.len(),
                i < self@.proposals.len(),
                self@.proposals.len() == self@.plan.proposals.len(),
                shares_fit(self@, shares@),
                slot_shares@.len() == j,
                forall|k: int| 0 <= k < j ==> (#[trigger] slot_shares@[k])@ == shares@[k].shares[i as int],
            decreases shares.members.len() - j,
        {
            proof {
                assert(shares@[j as int] == shares.members@[j as int]@);
                assert(member_shares_fit(self@, shares@[j as int]));
                assert(shares@[j as int].shares[i as int] == shares.members@[j as int].shares@[i as int]@);
            }
            slot_shares.push(shares.members[j].shares[i].duplicate());
            j = j + 1;
        }
        let budget = decode_budget_exec(&self.proposals[i].records);
        proof {
            let sv = crate::tally::share_values(slot_shares@);
            assert(sv =~= proposal_shares(shares@, i as int));
            assert forall|k: int| 0 <= k < slot_shares@.len() implies state@.len() <= (
            #[trigger] slot_shares@[k])@.len() by {
                assert(member_shares_fit(self@, shares@[k]));
                assert(shares@[k].shares[i as int].len() == self@.plan.proposals[i as int].options@);
            }
        }
        let r = result(budget, TALLY_TABLE_SIZE, &state, slot_shares.as_slice());
        proof {
            let want = private_result(self@, shares@, i as int);
            assert(r.votes@.len() == want.len());
            assert forall|k: int| 0 <= k < want.len() implies r.votes@[k] == want[k] by {
                let d = decode_slots(
                    opened_slots(state@, proposal_shares(shares@, i as int)),
                    TALLY_TABLE_SIZE as nat,
                    budget as nat,
                )[k];
                assert(count_value(r.votes@[k]) == d);
            }
            assert(r.votes@ =~= want);
        }
        r
    }

    /// Opens the encrypted tallies with the committee's shares: each slot is
    /// decoded to a number of votes, and the actions of the accepted
    /// proposals are returned for the caller to apply, in the order of the
    /// proposals. The receiver stays as it is.
    pub fn finalize_private_tally(&self, shares: &DecryptedPrivateTally, governance: &Governance) -> (r:
        Result<(VotePlanManager, Vec<VoteAction>), VoteError>)
        ensures
            match r {
                Ok((next, actions)) => finalize_error(self@, shares@) is None && next@
                    == manager_after_results(
                    self@,
                    self@.total_stake,
                    all_private_results(self@, shares@),
                ) && actions@ == accepted_actions(
                    *governance,
                    self@.total_stake,
                    self@.plan.proposals,
                    all_private_results(self@, shares@),
                    self@.plan.proposals.len(),
                ) && manager_fits(next@),
                Err(e) => finalize_error(self@, shares@) == Some(e),
            },
    {
        proof {
            use_type_invariant(self);
        }
        match &self.status {
            ManagerStatus::TallyStarted => {},
            _ => {
                return Err(VoteError::TallyNotStarted);
            },
        }
        if !self.shares_check(shares) {
            return Err(VoteError::InvalidDecryptShare);
        }
        let needed = self.plan.committee_public_keys().len();
        if shares.members.len() < needed {
            return Err(
                VoteError::NotEnoughShares { threshold: needed, provided: shares.members.len() },
            );
        }
        match self.plan.payload_type() {
            PayloadType::Private => {},
            PayloadType::Public => {
                return Err(VoteError::TallyNotStarted);
            },
        }
        let mut results: Vec<TallyResult> = Vec::new();
        let mut i: usize = 0;
        while i < self.proposals.len()
            invariant
                i <= self.proposals.len(),
                self.proposals@.len() == self@.proposals.len(),
                self@.plan.payload_type == PayloadType::Private,
                shares_fit(self@, shares@),
                results@.len() == i,
                forall|k: int|
                    0 <= k < i ==> (#[trigger] results@[k]).votes@ == private_result(
                        self@,
                        shares@,
                        k,
                    ),
            decreases self.proposals.len() - i,
        {
            let r = self.private_result_exec(shares, i);
            results.push(r);
            i = i + 1;
        }
        proof {
            assert(result_values(results@) =~= all_private_results(self@, shares@));
        }
        let actions = accepted_actions_exec(governance, self.total_stake, &self.plan, &results);
        let next = self.with_status(ManagerStatus::Finished { results }, self.total_stake);
        Ok((next, actions))
    }
}

} // verus!
