//! What holds of vote plans on the ledger, whatever happens to them.

use crate::certificate::vote_cast::VoteCastView;
use crate::certificate::vote_plan::{VotePlanId, VotePlanView};
use crate::certificate::vote_tally::MemberSharesView;
use crate::date::{date_gt, BlockDate};
use crate::vote::ledger::{add_plan_error, apply_vote_error, dates_in_order};
use crate::vote::manager::{
    distinct_members, finalize_error, index_of, lemma_index_of, lemma_index_of_range,
    lemma_tally_of_len, manager_after_results, manager_after_start, manager_after_vote,
    manager_fits, public_total, record_vote, shares_fit, start_tally_error, status_rank,
    threshold, vote_error, ManagerView, StatusView, VoterRecordView,
};
use crate::vote::payload::PayloadType;
use vstd::prelude::*;

verus! {

/// A vote after the end of voting is refused, whatever else holds of it.
pub proof fn lemma_vote_after_end_is_refused(m: ManagerView, date: BlockDate, cast: VoteCastView)
    requires
        date_gt(date, m.plan.vote_end),
    ensures
        vote_error(m, date, cast) is Some,
{
}

/// A vote after the end of voting of the plan it names is refused by the
/// ledger; so is a vote on a plan that the ledger does not hold.
pub proof fn lemma_ledger_refuses_vote_after_end(
    l: Map<VotePlanId, ManagerView>,
    date: BlockDate,
    cast: VoteCastView,
)
    requires
        l.dom().contains(cast.vote_plan) ==> date_gt(date, l[cast.vote_plan].plan.vote_end),
    ensures
        apply_vote_error(l, date, cast) is Some,
{
}

/// A plan whose voting has started before the current date is refused.
pub proof fn lemma_plan_after_start_is_refused(
    l: Map<VotePlanId, ManagerView>,
    current_date: BlockDate,
    plan: VotePlanView,
)
    requires
        date_gt(current_date, plan.vote_start),
    ensures
        add_plan_error(l, current_date, plan) is Some,
{
}

/// A plan that is added has its dates in order, is not yet started, and
/// has a committee key where it is voted encrypted.
pub proof fn lemma_added_plan_is_in_order(
    l: Map<VotePlanId, ManagerView>,
    current_date: BlockDate,
    plan: VotePlanView,
)
    requires
        add_plan_error(l, current_date, plan) is None,
    ensures
        dates_in_order(plan),
        !date_gt(current_date, plan.vote_start),
        plan.payload_type == PayloadType::Private ==> plan.committee_public_keys.len() > 0,
{
}

/// A manager never goes back: a vote leaves its status as it is.
pub proof fn lemma_vote_keeps_status(
    m: ManagerView,
    date: BlockDate,
    account: Seq<u8>,
    weight: u64,
    cast: VoteCastView,
)
    requires
        vote_error(m, date, cast) is None,
    ensures
        manager_after_vote(m, account, weight, cast).status == StatusView::Voting,
        status_rank(manager_after_vote(m, account, weight, cast).status) >= status_rank(m.status),
{
}

/// A manager never goes back: the start of the encrypted tally takes it
/// from voting to tallying.
pub proof fn lemma_start_advances_status(
    m: ManagerView,
    date: BlockDate,
    committee_id: Seq<u8>,
    total_stake: u64,
)
    requires
        start_tally_error(m, date, committee_id) is None,
    ensures
        m.status == StatusView::Voting,
        manager_after_start(m, total_stake).status == StatusView::TallyStarted,
        status_rank(manager_after_start(m, total_stake).status) > status_rank(m.status),
{
}

/// A manager never goes back: results take it from voting or tallying to
/// finished.
pub proof fn lemma_results_advance_status(
    m: ManagerView,
    total_stake: u64,
    results: Seq<Seq<Option<u64>>>,
)
    ensures
        status_rank(manager_after_results(m, total_stake, results).status) >= status_rank(
            m.status,
        ),
        status_rank(manager_after_results(m, total_stake, results).status) == 2,
{
}

/// With shares of fewer members than the threshold, a tally is not opened:
/// the plan does not finish.
pub proof fn lemma_below_threshold_is_refused(m: ManagerView, shares: Seq<MemberSharesView>)
    requires
        shares.len() < threshold(m),
    ensures
        finalize_error(m, shares) is Some,
{
}

/// Where a tally is opened, every member gave its shares once, and one for
/// each proposal.
pub proof fn lemma_one_share_per_member(m: ManagerView, shares: Seq<MemberSharesView>)
    requires
        finalize_error(m, shares) is None,
    ensures
        distinct_members(shares),
        forall|j: int|
            0 <= j < shares.len() ==> (#[trigger] shares[j]).shares.len()
                == m.plan.proposals.len(),
        shares.len() >= threshold(m),
{
    assert(shares_fit(m, shares));
}

/// The encrypted tally of every proposal of a consistent manager has one
/// slot for each option of the proposal.
pub proof fn lemma_tally_has_one_slot_per_option(m: ManagerView, i: int)
    requires
        manager_fits(m),
        m.plan.payload_type == PayloadType::Private,
        0 <= i < m.proposals.len(),
    ensures
        m.proposals[i].tally is Some,
        m.proposals[i].tally.unwrap().len() == m.plan.proposals[i].options@,
{
    lemma_tally_of_len(m.proposals[i].records, m.plan.proposals[i].options@);
}

/// A change of one plan leaves every other plan of the ledger as it was,
/// in the old version and in the new one.
pub proof fn lemma_update_leaves_other_plans(
    l: Map<VotePlanId, ManagerView>,
    id: VotePlanId,
    m: ManagerView,
    other: VotePlanId,
)
    requires
        other != id,
    ensures
        l.insert(id, m).dom().contains(other) == l.dom().contains(other),
        l.dom().contains(other) ==> l.insert(id, m)[other] == l[other],
{
}

/// The last vote of an account counts: a second vote of the same account
/// replaces the first.
pub proof fn lemma_last_vote_counts(
    records: Seq<VoterRecordView>,
    first: VoterRecordView,
    second: VoterRecordView,
)
    requires
        first.account == second.account,
    ensures
        record_vote(record_vote(records, first), second) == record_vote(records, second),
{
    let account = first.account;
    let i = index_of(records, account);
    lemma_index_of_range(records, account);
    let after = record_vote(records, first);
    if i < records.len() {
        assert forall|k: int| 0 <= k < i implies (#[trigger] after[k]).account != account by {
            lemma_index_before(records, account, k);
        }
        lemma_index_of(after, account, i);
        assert(after.update(i, second) =~= records.update(i, second));
    } else {
        assert forall|k: int| 0 <= k < records.len() implies (#[trigger] after[k]).account
            != account by {
            lemma_index_before(records, account, k);
        }
        lemma_index_of(after, account, records.len() as int);
        assert(after.update(records.len() as int, second) =~= records.push(second));
    }
}

/// A later vote is not added to the earlier vote of the same account:
/// where an account without a vote on a proposal votes twice, every choice
/// has the votes that it had before, and the choice of the second vote has
/// the weight of the second vote more. After two votes of the only voter,
/// the choice of the second vote has its weight and every other choice has
/// none.
pub proof fn lemma_second_vote_is_not_added(
    records: Seq<VoterRecordView>,
    first: VoterRecordView,
    second: VoterRecordView,
    c: u8,
)
    requires
        first.account == second.account,
        index_of(records, first.account) == records.len(),
    ensures
        public_total(record_vote(record_vote(records, first), second), c) == public_total(
            records,
            c,
        ) + (if second.choice == c {
            second.weight as nat
        } else {
            0
        }),
        records.len() == 0 ==> public_total(record_vote(record_vote(records, first), second), c)
            == (if second.choice == c {
            second.weight as nat
        } else {
            0
        }),
{
    lemma_last_vote_counts(records, first, second);
    assert(records.push(second).drop_last() =~= records);
}

/// No record before the index of an account is of the account.
pub proof fn lemma_index_before(records: Seq<VoterRecordView>, account: Seq<u8>, k: int)
    requires
        0 <= k < index_of(records, account),
        k < records.len(),
    ensures
        records[k].account != account,
    decreases records.len(),
{
    if records.len() > 0 && records[0].account != account {
        if k > 0 {
            lemma_index_before(records.drop_first(), account, k - 1);
        }
    }
}

/// Whether the records of a proposal are the votes: record for record the
/// account's weight, and as ballot the encryption of the vote to the key
/// `pk` with the vote's coins.
pub open spec fn records_are_votes(
    records: Seq<VoterRecordView>,
    pk: nat,
    votes: Seq<crate::tally_laws::CastVote>,
) -> bool {
    &&& records.len() == votes.len()
    &&& forall|k: int|
        0 <= k < records.len() ==> (#[trigger] records[k]).weight as nat == votes[k].weight
            && records[k].ballot == crate::encrypted::encrypt_unit_vector(
            pk,
            votes[k].ith,
            votes[k].coins,
        )
}

/// The encrypted tally of records that are votes is the tally of the
/// votes, and the records weigh what the votes weigh.
pub proof fn lemma_tally_of_votes(
    records: Seq<VoterRecordView>,
    pk: nat,
    votes: Seq<crate::tally_laws::CastVote>,
    options: nat,
)
    requires
        records_are_votes(records, pk, votes),
    ensures
        crate::vote::manager::tally_of(records, options) == crate::tally_laws::tally_votes(
            pk,
            votes,
            options,
        ),
        crate::vote::manager::total_weight(records) == crate::tally_laws::weights_of(votes),
    decreases records.len(),
{
    if records.len() > 0 {
        let rf = records.drop_last();
        let vf = votes.drop_last();
        assert(records_are_votes(rf, pk, vf)) by {
            assert forall|k: int| 0 <= k < rf.len() implies (#[trigger] rf[k]).weight as nat
                == vf[k].weight && rf[k].ballot == crate::encrypted::encrypt_unit_vector(
                pk,
                vf[k].ith,
                vf[k].coins,
            ) by {
                assert(rf[k] == records[k]);
            }
        }
        lemma_tally_of_votes(rf, pk, vf, options);
        assert(records[records.len() - 1].weight as nat == votes.last().weight);
    }
}

/// The result that a manager reports for a proposal voted encrypted is the
/// votes that were cast: where the records of the proposal are honest votes
/// encrypted to the election key of the committee, and every member gives
/// the share of its secret, each option of the result is the weight of the
/// votes for it. The votes together have to weigh less than the group order.
pub proof fn lemma_private_result_counts_votes(
    m: ManagerView,
    shares: Seq<MemberSharesView>,
    i: int,
    secrets: Seq<nat>,
    votes: Seq<crate::tally_laws::CastVote>,
)
    requires
        manager_fits(m),
        m.plan.payload_type == PayloadType::Private,
        0 <= i < m.proposals.len(),
        m.plan.committee_public_keys == crate::tally_laws::public_shares(secrets),
        records_are_votes(
            m.proposals[i].records,
            crate::vote::manager::plan_election_key(m.plan),
            votes,
        ),
        crate::tally_laws::votes_fit(votes, m.plan.proposals[i].options@),
        crate::tally_laws::weights_of(votes) < crate::modarith::order(),
        shares.len() == secrets.len(),
        forall|j: int|
            0 <= j < shares.len() ==> (#[trigger] shares[j]).shares[i] == crate::tally::tally_share(
                m.proposals[i].tally.unwrap(),
                secrets[j],
            ),
    ensures
        crate::vote::manager::private_result(m, shares, i) == Seq::new(
            m.plan.proposals[i].options@,
            |j: int| Some(crate::tally_laws::votes_for(votes, j as nat) as u64),
        ),
        forall|j: nat|
            j < m.plan.proposals[i].options@ ==> #[trigger] crate::tally_laws::votes_for(votes, j)
                <= u64::MAX,
{
    let options = m.plan.proposals[i].options@;
    let records = m.proposals[i].records;
    let pk = crate::vote::manager::plan_election_key(m.plan);
    lemma_tally_of_votes(records, pk, votes, options);
    let t = m.proposals[i].tally.unwrap();
    assert(t == crate::tally_laws::tally_votes(pk, votes, options));
    let budget = crate::vote::manager::decode_budget(records) as nat;
    assert(budget == crate::tally_laws::weights_of(votes) + 1);
    crate::tally_laws::lemma_election_within_budget(
        secrets,
        votes,
        options,
        crate::vote::manager::TALLY_TABLE_SIZE as nat,
        budget,
    );
    assert(crate::vote::manager::proposal_shares(shares, i)
        =~= crate::tally_laws::committee_shares(t, secrets));
    assert(crate::vote::manager::private_result(m, shares, i) =~= Seq::new(
        options,
        |j: int| Some(crate::tally_laws::votes_for(votes, j as nat) as u64),
    ));
}

/// The sum of group elements is a group element.
pub proof fn lemma_sum_is_member(s: Seq<nat>)
    requires
        crate::tally::all_members(s),
    ensures
        crate::gang::is_member(crate::gang::ge_sum(s)),
    decreases s.len(),
{
    if s.len() == 0 {
        crate::gang::lemma_zero_is_member();
    } else {
        let front = s.drop_last();
        assert(crate::tally::all_members(front)) by {
            assert forall|i: int| 0 <= i < front.len() implies crate::gang::is_member(
                #[trigger] front[i],
            ) by {
                assert(front[i] == s[i]);
            }
        }
        lemma_sum_is_member(front);
        assert(crate::gang::is_member(s[s.len() - 1]));
        crate::gang::lemma_add_is_member(crate::gang::ge_sum(front), s.last());
    }
}

/// The reference string of a seed is a group element.
pub proof fn lemma_crs_is_member(seed: Seq<u8>)
    ensures
        crate::gang::is_member(crate::committee::crs_from_hash(seed)),
{
    crate::tally_laws::lemma_generator_is_member();
}

/// An honest vote is accepted: where a vote names the plan of a manager that
/// takes votes, is cast in the time of voting on one of its proposals, and
/// carries the encryption of a vote for one of the proposal's options with
/// the prover's proof for it, the manager does not refuse it.
pub proof fn lemma_honest_vote_is_accepted(
    m: ManagerView,
    date: BlockDate,
    cast: VoteCastView,
    vote: crate::unit_vector::UnitVectorView,
)
    requires
        cast.vote_plan == m.id,
        (cast.proposal_index as int) < m.plan.proposals.len(),
        crate::date::date_le(m.plan.vote_start, date),
        crate::date::date_le(date, m.plan.vote_end),
        m.status == StatusView::Voting,
        m.plan.payload_type == PayloadType::Private,
        crate::tally::all_members(m.plan.committee_public_keys),
        vote.size == m.plan.proposals[cast.proposal_index as int].options@,
        vote.size <= crate::unit_vector::MAX_OPTIONS,
        cast.payload matches crate::vote::payload::PayloadView::Private { encrypted_vote, proof }
            && crate::ballot::is_honest_ballot(
            crate::committee::crs_from_hash(m.id@),
            crate::vote::manager::plan_election_key(m.plan),
            vote,
            encrypted_vote,
            proof,
        ),
    ensures
        vote_error(m, date, cast) is None,
{
    let h = crate::committee::crs_from_hash(m.id@);
    let pk = crate::vote::manager::plan_election_key(m.plan);
    lemma_crs_is_member(m.id@);
    lemma_sum_is_member(m.plan.committee_public_keys);
    match cast.payload {
        crate::vote::payload::PayloadView::Private { encrypted_vote, proof } => {
            crate::shvzk_laws::lemma_honest_ballot_verifies(h, pk, vote, encrypted_vote, proof);
            let ev = choose|ev: crate::encrypted::EncryptingVoteView| #[trigger]
                crate::encrypted::is_encryption_of(ev, pk) && ev.vote == vote && ev.ciphertexts
                    == encrypted_vote && crate::shvzk::is_proof_of(proof, h, pk, ev);
            assert(encrypted_vote.len() == vote.size);
        },
        _ => {},
    }
}

} // verus!
