//! What holds of tallies: the order of the ballots does not matter, the
//! shares of all committee members open a tally to its totals, the size of
//! the decoder's table does not change what is decoded, and a single vote
//! comes out of the tally as it went in.

use crate::encrypted::encrypt_unit_vector;
use crate::gang::{
    ge_add, ge_neg, ge_scale, ge_sub, ge_sum, ge_zero, is_member, lemma_add_associates,
    lemma_add_commutes, lemma_add_zero, lemma_generator_multiple_is_member, lemma_neg_cancels,
    lemma_scale_adds,
};
use crate::gargamel::{
    ct_encrypt, ct_scale, ct_zero, lemma_decrypt_encrypt, lemma_encrypt_adds, lemma_encrypt_scales,
};
use crate::generator::{gen_pow, generator_value};
use crate::modarith::{lemma_pow_mod_small_exponents, modulus, mul_mod, order};
use crate::primality::lemma_generator_has_full_order;
use crate::tally::{
    budget_before, decode_slot, decode_slots, find_log, lemma_find_log_found, opened_slots,
    tally_add, tally_new, tally_share, tally_state,
};
use crate::unit_vector::unit_entry;
use vstd::arithmetic::div_mod::*;
use vstd::arithmetic::mul::*;
use vstd::arithmetic::power::*;
use vstd::prelude::*;
use vstd::seq_lib::*;

verus! {

/// A ballot with the weight it is added with.
pub type WeightedBallot = (Seq<(nat, nat)>, nat);

/// Adds one weighted ballot to a tally.
pub open spec fn add_ballot(t: Seq<(nat, nat)>, b: WeightedBallot) -> Seq<(nat, nat)> {
    tally_add(t, b.0, b.1)
}

/// The tally of `options` slots after the ballots were added in their
/// order.
pub open spec fn tally_all(ballots: Seq<WeightedBallot>, options: nat) -> Seq<(nat, nat)> {
    ballots.fold_left(tally_new(options), |t: Seq<(nat, nat)>, b: WeightedBallot| add_ballot(t, b))
}

/// `(a + x) + y == (a + y) + x` in the group.
pub proof fn lemma_add_swaps(a: nat, x: nat, y: nat)
    ensures
        ge_add(ge_add(a, x), y) == ge_add(ge_add(a, y), x),
{
    lemma_add_associates(a, x, y);
    lemma_add_associates(a, y, x);
    lemma_add_commutes(x, y);
}

/// Two ballots can be added to a tally in either order.
pub proof fn lemma_tally_add_commutes(t: Seq<(nat, nat)>, x: WeightedBallot, y: WeightedBallot)
    ensures
        add_ballot(add_ballot(t, x), y) == add_ballot(add_ballot(t, y), x),
{
    let left = add_ballot(add_ballot(t, x), y);
    let right = add_ballot(add_ballot(t, y), x);
    assert forall|j: int| 0 <= j < left.len() implies left[j] == right[j] by {
        let xs = ct_scale(x.0[j], x.1);
        let ys = ct_scale(y.0[j], y.1);
        lemma_add_swaps(t[j].0, xs.0, ys.0);
        lemma_add_swaps(t[j].1, xs.1, ys.1);
    }
    assert(left =~= right);
}

/// Tallying the same ballots in any order gives the same encrypted tally,
/// and so the same result when it is opened.
pub proof fn lemma_tally_order_is_irrelevant(
    a: Seq<WeightedBallot>,
    b: Seq<WeightedBallot>,
    options: nat,
)
    requires
        a.to_multiset() == b.to_multiset(),
    ensures
        tally_all(a, options) == tally_all(b, options),
{
    let f = |t: Seq<(nat, nat)>, x: WeightedBallot| add_ballot(t, x);
    assert(commutative_foldl(f)) by {
        assert forall|x: WeightedBallot, y: WeightedBallot, v: Seq<(nat, nat)>| #[trigger]
            f(f(v, x), y) == f(f(v, y), x) by {
            lemma_tally_add_commutes(v, x, y);
        }
    }
    lemma_fold_left_permutation(a, b, f, tally_new(options));
}

/// Whether a tally encrypts the totals under the key `pk`, slot by slot,
/// with the given coins.
pub open spec fn encrypts_totals(
    t: Seq<(nat, nat)>,
    pk: nat,
    totals: Seq<nat>,
    coins: Seq<nat>,
) -> bool {
    &&& totals.len() == t.len()
    &&& coins.len() == t.len()
    &&& forall|j: int| 0 <= j < t.len() ==> #[trigger] t[j] == ct_encrypt(pk, totals[j], coins[j])
}

/// The generator is a group element.
pub proof fn lemma_generator_is_member()
    ensures
        is_member(generator_value()),
        gen_pow(0) == ge_zero(),
        gen_pow(1) == generator_value(),
{
    lemma_generator_multiple_is_member(1);
    lemma_pow_mod_small_exponents(generator_value(), modulus());
    lemma_small_mod(4, modulus());
}

/// The empty tally encrypts zero votes in every slot, under every key.
pub proof fn lemma_new_tally_encrypts_zeros(pk: nat, options: nat)
    ensures
        encrypts_totals(
            tally_new(options),
            pk,
            Seq::new(options, |j: int| 0nat),
            Seq::new(options, |j: int| 0nat),
        ),
{
    lemma_generator_is_member();
    lemma_pow_mod_small_exponents(pk, modulus());
    assert(ct_encrypt(pk, 0, 0) == ct_zero()) by {
        assert(mul_mod(1, 1, modulus()) == 1) by {
            lemma_small_mod(1, modulus());
        }
    }
}

/// Adding the encryption of a vote with a weight to a tally that encrypts
/// totals gives a tally that encrypts the totals with the weight added at
/// the voted option.
pub proof fn lemma_add_vote_to_totals(
    t: Seq<(nat, nat)>,
    pk: nat,
    totals: Seq<nat>,
    coins: Seq<nat>,
    ith: nat,
    vote_coins: Seq<nat>,
    weight: nat,
)
    requires
        is_member(pk),
        encrypts_totals(t, pk, totals, coins),
        vote_coins.len() == t.len(),
    ensures
        encrypts_totals(
            tally_add(t, encrypt_unit_vector(pk, ith, vote_coins), weight),
            pk,
            Seq::new(t.len(), |j: int| totals[j] + unit_entry(ith, j as nat) * weight),
            Seq::new(t.len(), |j: int| coins[j] + vote_coins[j] * weight),
        ),
{
    let ballot = encrypt_unit_vector(pk, ith, vote_coins);
    let next = tally_add(t, ballot, weight);
    assert forall|j: int| 0 <= j < next.len() implies #[trigger] next[j] == ct_encrypt(
        pk,
        totals[j] + unit_entry(ith, j as nat) * weight,
        coins[j] + vote_coins[j] * weight,
    ) by {
        lemma_encrypt_scales(pk, unit_entry(ith, j as nat), vote_coins[j], weight);
        lemma_encrypt_adds(
            pk,
            totals[j],
            coins[j],
            unit_entry(ith, j as nat) * weight,
            vote_coins[j] * weight,
        );
        assert(t[j] == ct_encrypt(pk, totals[j], coins[j]));
    }
}

/// The sum of the secrets.
pub open spec fn sum_of(secrets: Seq<nat>) -> nat
    decreases secrets.len(),
{
    if secrets.len() == 0 {
        0
    } else {
        sum_of(secrets.drop_last()) + secrets.last()
    }
}

/// The public shares of the secrets.
pub open spec fn public_shares(secrets: Seq<nat>) -> Seq<nat> {
    Seq::new(secrets.len(), |i: int| gen_pow(secrets[i]))
}

/// The election key of a committee is the generator taken as often as the
/// sum of the members' secrets.
pub proof fn lemma_election_key(secrets: Seq<nat>)
    ensures
        ge_sum(public_shares(secrets)) == gen_pow(sum_of(secrets)),
        is_member(ge_sum(public_shares(secrets))),
    decreases secrets.len(),
{
    lemma_generator_is_member();
    lemma_generator_multiple_is_member(sum_of(secrets));
    if secrets.len() > 0 {
        let front = secrets.drop_last();
        lemma_election_key(front);
        assert(public_shares(secrets).drop_last() =~= public_shares(front));
        lemma_scale_adds(generator_value(), sum_of(front), secrets.last());
    }
}

/// The members' multiples of one element add up to the element taken as
/// often as the sum of their secrets.
pub proof fn lemma_shares_add_up(c: nat, secrets: Seq<nat>)
    requires
        is_member(c),
    ensures
        ge_sum(Seq::new(secrets.len(), |i: int| ge_scale(c, secrets[i]))) == ge_scale(
            c,
            sum_of(secrets),
        ),
    decreases secrets.len(),
{
    let all = Seq::new(secrets.len(), |i: int| ge_scale(c, secrets[i]));
    if secrets.len() == 0 {
        lemma_pow_mod_small_exponents(c, modulus());
    } else {
        let front = secrets.drop_last();
        lemma_shares_add_up(c, front);
        assert(all.drop_last() =~= Seq::new(front.len(), |i: int| ge_scale(c, front[i])));
        lemma_scale_adds(c, sum_of(front), secrets.last());
    }
}

/// The decryption shares of all members of a committee open a ciphertext
/// under the committee's election key to the generator taken message
/// times.
pub proof fn lemma_all_shares_open(secrets: Seq<nat>, m: nat, r: nat)
    ensures
        ({
            let c = ct_encrypt(ge_sum(public_shares(secrets)), m, r);
            ge_sub(c.1, ge_sum(Seq::new(secrets.len(), |i: int| ge_scale(c.0, secrets[i]))))
        }) == gen_pow(m),
{
    lemma_election_key(secrets);
    lemma_generator_multiple_is_member(r);
    lemma_shares_add_up(gen_pow(r), secrets);
    lemma_decrypt_encrypt(sum_of(secrets), m, r);
}

/// The shares that the members of a committee give for a tally.
pub open spec fn committee_shares(t: Seq<(nat, nat)>, secrets: Seq<nat>) -> Seq<Seq<nat>> {
    Seq::new(secrets.len(), |i: int| tally_share(t, secrets[i]))
}

/// With the shares of all members, every slot of a tally that encrypts
/// totals under the committee's election key opens to the generator taken
/// as often as the slot's total.
pub proof fn lemma_committee_opens_totals(
    t: Seq<(nat, nat)>,
    secrets: Seq<nat>,
    totals: Seq<nat>,
    coins: Seq<nat>,
)
    requires
        encrypts_totals(t, ge_sum(public_shares(secrets)), totals, coins),
    ensures
        opened_slots(tally_state(t), committee_shares(t, secrets)) == Seq::new(
            t.len(),
            |j: int| gen_pow(totals[j]),
        ),
{
    let opened = opened_slots(tally_state(t), committee_shares(t, secrets));
    assert forall|j: int| 0 <= j < t.len() implies opened[j] == gen_pow(totals[j]) by {
        lemma_all_shares_open(secrets, totals[j], coins[j]);
        let shares = committee_shares(t, secrets);
        assert(Seq::new(shares.len(), |i: int| shares[i][j]) =~= Seq::new(
            secrets.len(),
            |i: int| ge_scale(t[j].0, secrets[i]),
        ));
        assert(t[j] == ct_encrypt(ge_sum(public_shares(secrets)), totals[j], coins[j]));
    }
    assert(opened =~= Seq::new(t.len(), |j: int| gen_pow(totals[j])));
}

/// Whether no multiple of the generator from the first to the `bound`-th is
/// neutral.
pub open spec fn generator_order_exceeds(bound: nat) -> bool {
    forall|d: nat| 0 < d <= bound ==> #[trigger] gen_pow(d) != ge_zero()
}

/// The group order is prime and the generator has that order: none of its
/// multiples below the order is neutral.
pub proof fn lemma_generator_order_exceeds(bound: nat)
    requires
        bound < order(),
    ensures
        generator_order_exceeds(bound),
{
    lemma_generator_has_full_order();
}

/// Up to `w`, no other count stands for the same element as `w`.
pub proof fn lemma_counts_are_distinct(k: nat, w: nat)
    requires
        k < w < order(),
    ensures
        gen_pow(k) != gen_pow(w),
{
    lemma_generator_order_exceeds(w);
    if gen_pow(k) == gen_pow(w) {
        let d = (w - k) as nat;
        lemma_generator_is_member();
        lemma_scale_adds(generator_value(), k, d);
        lemma_generator_multiple_is_member(k);
        lemma_generator_multiple_is_member(d);
        let a = gen_pow(k);
        // a + g^d == a, so g^d is neutral
        lemma_neg_cancels(a);
        lemma_add_associates(ge_neg(a), a, gen_pow(d));
        lemma_add_zero(gen_pow(d));
        assert(gen_pow(d) == ge_zero());
        assert(false);
    }
}

/// The search for a count finds the count itself, where it is in the range
/// searched.
pub proof fn lemma_find_log_of_count(w: nat, lo: nat, hi: nat)
    requires
        lo <= w < hi,
        w < order(),
    ensures
        find_log(gen_pow(w), lo, hi) == Some(w),
    decreases w - lo,
{
    if lo < w {
        lemma_counts_are_distinct(lo, w);
        lemma_find_log_of_count(w, lo + 1, hi);
    }
}

/// The search below a count finds nothing.
pub proof fn lemma_find_log_below_count(w: nat, lo: nat, hi: nat)
    requires
        hi <= w < order(),
    ensures
        find_log(gen_pow(w), lo, hi) is None,
    decreases hi - lo,
{
    if lo < hi {
        lemma_counts_are_distinct(lo, w);
        lemma_find_log_below_count(w, lo + 1, hi);
    }
}

/// A slot that stands for `w` votes decodes to `w`, where `w` is within
/// the budget, whatever the size of the table.
pub proof fn lemma_decode_count(w: nat, table_size: nat, budget: nat)
    requires
        w <= budget,
        w < order(),
    ensures
        decode_slot(gen_pow(w), table_size, budget) == Some(w),
{
    lemma_generator_is_member();
    if w > 0 {
        lemma_generator_order_exceeds(w);
        assert(gen_pow(w) != ge_zero());
        if w <= table_size {
            lemma_find_log_of_count(w, 1, table_size + 1);
        } else {
            lemma_find_log_below_count(w, 1, table_size + 1);
            lemma_find_log_of_count(w, table_size + 1, budget + 1);
        }
    }
}

/// The size of the table changes the cost of decoding, not its result: a
/// slot decodes to the least count within the budget that stands for its
/// element, if there is one.
pub proof fn lemma_decode_slot_ignores_table(r: nat, table_size: nat, budget: nat)
    ensures
        decode_slot(r, table_size, budget) == (if r == ge_zero() {
            Some(0nat)
        } else {
            find_log(r, 1, budget + 1)
        }),
{
    lemma_find_log_found(r, 1, table_size + 1);
    lemma_find_log_found(r, table_size + 1, budget + 1);
    lemma_find_log_found(r, 1, budget + 1);
}

/// What is left of the budget before a slot does not depend on the size of
/// the table.
pub proof fn lemma_budget_ignores_table(
    rs: Seq<nat>,
    table_size: nat,
    other_size: nat,
    max_votes: nat,
    j: nat,
)
    ensures
        budget_before(rs, table_size, max_votes, j) == budget_before(rs, other_size, max_votes, j),
    decreases j,
{
    if j > 0 {
        lemma_budget_ignores_table(rs, table_size, other_size, max_votes, (j - 1) as nat);
        let left = budget_before(rs, table_size, max_votes, (j - 1) as nat);
        lemma_decode_slot_ignores_table(rs[j - 1], table_size, left);
        lemma_decode_slot_ignores_table(rs[j - 1], other_size, left);
    }
}

/// The totals that are decoded do not depend on the size of the table.
pub proof fn lemma_result_ignores_table(
    rs: Seq<nat>,
    table_size: nat,
    other_size: nat,
    max_votes: nat,
)
    ensures
        decode_slots(rs, table_size, max_votes) == decode_slots(rs, other_size, max_votes),
{
    let a = decode_slots(rs, table_size, max_votes);
    let b = decode_slots(rs, other_size, max_votes);
    assert forall|j: int| 0 <= j < rs.len() implies a[j] == b[j] by {
        lemma_budget_ignores_table(rs, table_size, other_size, max_votes, j as nat);
        let left = budget_before(rs, table_size, max_votes, j as nat);
        lemma_decode_slot_ignores_table(rs[j], table_size, left);
        lemma_decode_slot_ignores_table(rs[j], other_size, left);
    }
    assert(a =~= b);
}

/// The totals of the first `upto` slots together.
pub open spec fn totals_before(totals: Seq<nat>, upto: nat) -> nat
    decreases upto,
{
    if upto == 0 {
        0
    } else {
        totals_before(totals, (upto - 1) as nat) + totals[upto - 1]
    }
}

/// The totals of the first slots are at most those of more slots.
pub proof fn lemma_totals_before_grows(totals: Seq<nat>, a: nat, b: nat)
    requires
        a <= b,
    ensures
        totals_before(totals, a) <= totals_before(totals, b),
    decreases b - a,
{
    if a < b {
        lemma_totals_before_grows(totals, a, (b - 1) as nat);
    }
}

/// Whether the decoder can find the totals: all together are within the
/// budget, and every total is below the group order.
pub open spec fn totals_in_reach(totals: Seq<nat>, max_votes: nat) -> bool {
    &&& totals_before(totals, totals.len()) <= max_votes
    &&& forall|j: int| 0 <= j < totals.len() ==> (#[trigger] totals[j]) < order()
}

/// Slots that stand for totals decode to the totals, where the totals are
/// in the decoder's reach: before slot `j` the budget is what the totals
/// before it have left of it, and slot `j` decodes to its total.
pub proof fn lemma_decode_totals(totals: Seq<nat>, table_size: nat, max_votes: nat, j: nat)
    requires
        j < totals.len(),
        totals_in_reach(totals, max_votes),
    ensures
        budget_before(
            Seq::new(totals.len(), |k: int| gen_pow(totals[k])),
            table_size,
            max_votes,
            j,
        ) == max_votes - totals_before(totals, j),
        decode_slots(
            Seq::new(totals.len(), |k: int| gen_pow(totals[k])),
            table_size,
            max_votes,
        )[j as int] == Some(totals[j as int]),
    decreases j,
{
    let opened = Seq::new(totals.len(), |k: int| gen_pow(totals[k]));
    if j > 0 {
        lemma_decode_totals(totals, table_size, max_votes, (j - 1) as nat);
        assert(decode_slots(opened, table_size, max_votes)[j - 1] == decode_slot(
            opened[j - 1],
            table_size,
            budget_before(opened, table_size, max_votes, (j - 1) as nat),
        ));
    }
    lemma_totals_before_grows(totals, j + 1, totals.len());
    let budget = (max_votes - totals_before(totals, j)) as nat;
    assert(budget_before(opened, table_size, max_votes, j) == budget);
    assert(totals[j as int] < order());
    lemma_decode_count(totals[j as int], table_size, budget);
}

/// One vote of an election: the option voted for, the weight of the voter,
/// and the coins of the encryption.
pub struct CastVote {
    pub ith: nat,
    pub weight: nat,
    pub coins: Seq<nat>,
}

/// The encrypted tally of `options` slots after the votes were encrypted to
/// the key `pk` and added in their order.
pub open spec fn tally_votes(pk: nat, votes: Seq<CastVote>, options: nat) -> Seq<(nat, nat)>
    decreases votes.len(),
{
    if votes.len() == 0 {
        tally_new(options)
    } else {
        tally_add(
            tally_votes(pk, votes.drop_last(), options),
            encrypt_unit_vector(pk, votes.last().ith, votes.last().coins),
            votes.last().weight,
        )
    }
}

/// The votes for option `j`: the weights of the votes for it.
pub open spec fn votes_for(votes: Seq<CastVote>, j: nat) -> nat
    decreases votes.len(),
{
    if votes.len() == 0 {
        0
    } else {
        votes_for(votes.drop_last(), j) + unit_entry(votes.last().ith, j) * votes.last().weight
    }
}

/// The coin of slot `j` of the tally of the votes.
pub open spec fn coins_for(votes: Seq<CastVote>, j: int) -> nat
    decreases votes.len(),
{
    if votes.len() == 0 {
        0
    } else {
        coins_for(votes.drop_last(), j) + votes.last().coins[j] * votes.last().weight
    }
}

/// Whether every vote has one coin for each option.
pub open spec fn votes_fit(votes: Seq<CastVote>, options: nat) -> bool {
    forall|k: int| 0 <= k < votes.len() ==> (#[trigger] votes[k]).coins.len() == options
}

/// The tally of votes encrypts, slot by slot, the votes for the slot's
/// option.
pub proof fn lemma_tally_votes_encrypts_totals(pk: nat, votes: Seq<CastVote>, options: nat)
    requires
        is_member(pk),
        votes_fit(votes, options),
    ensures
        encrypts_totals(
            tally_votes(pk, votes, options),
            pk,
            Seq::new(options, |j: int| votes_for(votes, j as nat)),
            Seq::new(options, |j: int| coins_for(votes, j)),
        ),
    decreases votes.len(),
{
    if votes.len() == 0 {
        lemma_new_tally_encrypts_zeros(pk, options);
        assert(Seq::new(options, |j: int| votes_for(votes, j as nat)) =~= Seq::new(
            options,
            |j: int| 0nat,
        ));
        assert(Seq::new(options, |j: int| coins_for(votes, j)) =~= Seq::new(
            options,
            |j: int| 0nat,
        ));
    } else {
        let front = votes.drop_last();
        let last = votes.last();
        assert(votes_fit(front, options)) by {
            assert forall|k: int| 0 <= k < front.len() implies (#[trigger] front[k]).coins.len()
                == options by {
                assert(front[k] == votes[k]);
            }
        }
        lemma_tally_votes_encrypts_totals(pk, front, options);
        let t = tally_votes(pk, front, options);
        let totals = Seq::new(options, |j: int| votes_for(front, j as nat));
        let coins = Seq::new(options, |j: int| coins_for(front, j));
        lemma_add_vote_to_totals(t, pk, totals, coins, last.ith, last.coins, last.weight);
        assert(Seq::new(t.len(), |j: int| totals[j] + unit_entry(last.ith, j as nat) * last.weight)
            =~= Seq::new(options, |j: int| votes_for(votes, j as nat)));
        assert(Seq::new(t.len(), |j: int| coins[j] + last.coins[j] * last.weight) =~= Seq::new(
            options,
            |j: int| coins_for(votes, j),
        ));
    }
}

/// An election comes out right: where votes are encrypted to the election
/// key of a committee and tallied, and all members of the committee give
/// their shares, every option decodes to the votes that were cast for it,
/// as far as the votes are in the decoder's reach.
pub proof fn lemma_election_result(
    secrets: Seq<nat>,
    votes: Seq<CastVote>,
    options: nat,
    table_size: nat,
    max_votes: nat,
)
    requires
        votes_fit(votes, options),
        totals_in_reach(Seq::new(options, |j: int| votes_for(votes, j as nat)), max_votes),
    ensures
        ({
            let t = tally_votes(ge_sum(public_shares(secrets)), votes, options);
            decode_slots(
                opened_slots(tally_state(t), committee_shares(t, secrets)),
                table_size,
                max_votes,
            )
        }) == Seq::new(options, |j: int| Some(votes_for(votes, j as nat))),
{
    let pk = ge_sum(public_shares(secrets));
    lemma_election_key(secrets);
    lemma_tally_votes_encrypts_totals(pk, votes, options);
    let t = tally_votes(pk, votes, options);
    let totals = Seq::new(options, |j: int| votes_for(votes, j as nat));
    let coins = Seq::new(options, |j: int| coins_for(votes, j));
    lemma_committee_opens_totals(t, secrets, totals, coins);
    let opened = opened_slots(tally_state(t), committee_shares(t, secrets));
    assert(opened =~= Seq::new(totals.len(), |k: int| gen_pow(totals[k])));
    let got = decode_slots(opened, table_size, max_votes);
    let want = Seq::new(options, |j: int| Some(votes_for(votes, j as nat)));
    assert(got.len() == options);
    assert forall|j: int| 0 <= j < options implies got[j] == want[j] by {
        lemma_decode_totals(totals, table_size, max_votes, j as nat);
    }
    assert(got =~= want);
}

/// A single vote comes out as it went in: where one vote for option `ith`
/// of `options` is encrypted to the key of one member, added to an empty
/// tally with a weight, and opened with that member's share, option `ith`
/// decodes to the weight and every other option to zero, whatever the size
/// of the table. The weight has to be below the group order, as every
/// weight of 32 bits is, and within the budget.
pub proof fn lemma_single_vote_round_trip(
    options: nat,
    ith: nat,
    weight: nat,
    secret: nat,
    vote_coins: Seq<nat>,
    table_size: nat,
    max_votes: nat,
)
    requires
        ith < options,
        vote_coins.len() == options,
        weight < order(),
        weight <= max_votes,
    ensures
        ({
            let t = tally_add(
                tally_new(options),
                encrypt_unit_vector(gen_pow(secret), ith, vote_coins),
                weight,
            );
            decode_slots(
                opened_slots(tally_state(t), seq![tally_share(t, secret)]),
                table_size,
                max_votes,
            )
        }) == Seq::new(
            options,
            |j: int|
                if j == ith {
                    Some(weight)
                } else {
                    Some(0nat)
                },
        ),
{
    let secrets = seq![secret];
    let vote = CastVote { ith, weight, coins: vote_coins };
    let votes = seq![vote];
    let pk = gen_pow(secret);
    lemma_election_key(secrets);
    assert(sum_of(secrets) == secret) by {
        reveal_with_fuel(sum_of, 2);
        assert(secrets.drop_last() =~= Seq::<nat>::empty());
    }
    assert(ge_sum(public_shares(secrets)) == pk);
    assert(votes.drop_last() =~= Seq::<CastVote>::empty());
    let t = tally_add(tally_new(options), encrypt_unit_vector(pk, ith, vote_coins), weight);
    assert(tally_votes(pk, votes, options) == t) by {
        reveal_with_fuel(tally_votes, 2);
    }
    assert(committee_shares(t, secrets) =~= seq![tally_share(t, secret)]);
    let totals = Seq::new(options, |j: int| votes_for(votes, j as nat));
    assert forall|j: nat| votes_for(votes, j) == unit_entry(ith, j) * weight by {
        reveal_with_fuel(votes_for, 2);
    }
    assert forall|j: nat| #[trigger] unit_entry(ith, j) * weight == (if j == ith {
        weight
    } else {
        0
    }) by {
        lemma_mul_basics(weight as int);
    }
    assert(totals_in_reach(totals, max_votes)) by {
        lemma_unit_totals(totals, ith, weight, options);
    }
    lemma_election_result(secrets, votes, options, table_size, max_votes);
    assert(Seq::new(options, |j: int| Some(votes_for(votes, j as nat))) =~= Seq::new(
        options,
        |j: int|
            if j == ith {
                Some(weight)
            } else {
                Some(0nat)
            },
    ));
}

/// Totals that are the weight at one option and zero elsewhere are, up to
/// any slot, zero before that option and the weight from it on.
proof fn lemma_unit_totals(totals: Seq<nat>, ith: nat, weight: nat, upto: nat)
    requires
        upto <= totals.len(),
        forall|j: int|
            0 <= j < totals.len() ==> #[trigger] totals[j] == (if j == ith {
                weight
            } else {
                0
            }),
    ensures
        totals_before(totals, upto) == (if ith < upto {
            weight
        } else {
            0
        }),
    decreases upto,
{
    if upto > 0 {
        lemma_unit_totals(totals, ith, weight, (upto - 1) as nat);
    }
}

/// The votes for the first `upto` options together.
pub open spec fn votes_before(votes: Seq<CastVote>, upto: nat) -> nat
    decreases upto,
{
    if upto == 0 {
        0
    } else {
        votes_before(votes, (upto - 1) as nat) + votes_for(votes, (upto - 1) as nat)
    }
}

/// The weights of all votes together.
pub open spec fn weights_of(votes: Seq<CastVote>) -> nat
    decreases votes.len(),
{
    if votes.len() == 0 {
        0
    } else {
        weights_of(votes.drop_last()) + votes.last().weight
    }
}

/// The last vote adds its weight to the votes for the first options where
/// it is for one of them, and nothing else.
pub proof fn lemma_votes_before_step(votes: Seq<CastVote>, upto: nat)
    requires
        votes.len() > 0,
    ensures
        votes_before(votes, upto) == votes_before(votes.drop_last(), upto) + (if votes.last().ith
            < upto {
            votes.last().weight
        } else {
            0
        }),
    decreases upto,
{
    if upto > 0 {
        let j = (upto - 1) as nat;
        lemma_votes_before_step(votes, j);
        lemma_mul_basics(votes.last().weight as int);
    }
}

/// The votes for the first options together are at most the weights of all
/// votes.
pub proof fn lemma_votes_before_bound(votes: Seq<CastVote>, upto: nat)
    ensures
        votes_before(votes, upto) <= weights_of(votes),
    decreases votes.len(),
{
    if votes.len() == 0 {
        assert(votes =~= Seq::<CastVote>::empty());
        lemma_no_votes(upto);
    } else {
        lemma_votes_before_bound(votes.drop_last(), upto);
        lemma_votes_before_step(votes, upto);
    }
}

/// Without votes no option has votes.
pub proof fn lemma_no_votes(upto: nat)
    ensures
        votes_before(Seq::<CastVote>::empty(), upto) == 0,
    decreases upto,
{
    if upto > 0 {
        lemma_no_votes((upto - 1) as nat);
    }
}

/// The totals of the first slots are the votes for the first options.
pub proof fn lemma_totals_are_votes(votes: Seq<CastVote>, options: nat, upto: nat)
    requires
        upto <= options,
    ensures
        totals_before(Seq::new(options, |j: int| votes_for(votes, j as nat)), upto) == votes_before(
            votes,
            upto,
        ),
    decreases upto,
{
    if upto > 0 {
        lemma_totals_are_votes(votes, options, (upto - 1) as nat);
    }
}

/// An election whose votes weigh no more than the budget and less than the
/// group order comes out right: every option decodes to the votes that were
/// cast for it.
pub proof fn lemma_election_within_budget(
    secrets: Seq<nat>,
    votes: Seq<CastVote>,
    options: nat,
    table_size: nat,
    max_votes: nat,
)
    requires
        votes_fit(votes, options),
        weights_of(votes) <= max_votes,
        weights_of(votes) < order(),
    ensures
        ({
            let t = tally_votes(ge_sum(public_shares(secrets)), votes, options);
            decode_slots(
                opened_slots(tally_state(t), committee_shares(t, secrets)),
                table_size,
                max_votes,
            )
        }) == Seq::new(options, |j: int| Some(votes_for(votes, j as nat))),
        forall|j: nat| j < options ==> #[trigger] votes_for(votes, j) <= weights_of(votes),
{
    let totals = Seq::new(options, |j: int| votes_for(votes, j as nat));
    assert forall|j: nat| j < options implies #[trigger] votes_for(votes, j) <= weights_of(
        votes,
    ) by {
        lemma_votes_before_bound(votes, j + 1);
    }
    assert(totals_in_reach(totals, max_votes)) by {
        lemma_totals_are_votes(votes, options, options);
        lemma_votes_before_bound(votes, options);
        assert forall|j: int| 0 <= j < totals.len() implies (#[trigger] totals[j]) < order() by {
            assert(votes_for(votes, j as nat) <= weights_of(votes));
        }
    }
    lemma_election_result(secrets, votes, options, table_size, max_votes);
}

} // verus!
