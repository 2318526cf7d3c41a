//! Reading a vote plan back from its canonical serialization.

use crate::certificate::vote_plan::{
    action_bytes, date_word, proposal_bytes, proposals_bytes, proposals_valid, vote_plan_bytes,
    vote_plan_fits, vote_plan_valid, ParametersGovernanceAction, Proposal, Proposals, TreasuryGovernanceAction, VoteAction,
    VotePlan, VotePlanView, MAX_PROPOSALS,
};
use crate::codec::{be_bytes, be_value, lemma_be_value_of_bytes, read_be_value};
use crate::committee::{member_key_values, MemberPublicKey};
use crate::date::BlockDate;
use crate::gang::{element_values};
use crate::gargamel::PublicKey;
use crate::hash::Digest;
use crate::tally::{
    all_members, elements_bytes, elements_from_bytes, group_elements_from_bytes,
    lemma_elements_bytes_len, lemma_elements_bytes_round_trip,
    lemma_elements_from_bytes_canonical,
};
use crate::value::Value;
use crate::vote::choice::{Options, NUM_CHOICES_MAX};
use crate::vote::payload::{payload_type_byte, PayloadType};
use vstd::prelude::*;
use vstd::slice::slice_subrange;

verus! {

/// Number of bytes of an encoded action.
pub const ACTION_BYTES_LEN: usize = 10;

/// Number of bytes of an encoded proposal.
pub const PROPOSAL_BYTES_LEN: usize = 43;

/// The date that a word stands for.
pub open spec fn date_from_word(w: u64) -> BlockDate {
    BlockDate { epoch: (w / 0x1_0000_0000) as u32, slot_id: (w % 0x1_0000_0000) as u32 }
}

/// The payload type that a byte stands for, if any.
pub open spec fn payload_type_from_byte(b: u8) -> Option<PayloadType> {
    if b == 1 {
        Some(PayloadType::Public)
    } else if b == 2 {
        Some(PayloadType::Private)
    } else {
        None
    }
}

/// The action that ten bytes encode, if any.
pub open spec fn action_from_bytes(b: Seq<u8>) -> Option<VoteAction> {
    let v = be_value(b.subrange(2, 10));
    if b.len() != 10 {
        None
    } else if b[0] == 0 && b[1] == 0 && v == 0 {
        Some(VoteAction::OffChain)
    } else if b[0] == 1 && b[1] == 0 && v == 0 {
        Some(VoteAction::Treasury { action: TreasuryGovernanceAction::NoOp })
    } else if b[0] == 1 && b[1] == 1 {
        Some(
            VoteAction::Treasury {
                action: TreasuryGovernanceAction::TransferToRewards { value: Value(v) },
            },
        )
    } else if b[0] == 2 && b[1] == 0 && v == 0 {
        Some(VoteAction::Parameters { action: ParametersGovernanceAction::NoOp })
    } else if b[0] == 2 && b[1] == 1 {
        Some(
            VoteAction::Parameters {
                action: ParametersGovernanceAction::RewardAdd { value: Value(v) },
            },
        )
    } else {
        None
    }
}

/// The proposal that 43 bytes encode, if any.
pub open spec fn proposal_from_bytes(b: Seq<u8>) -> Option<Proposal> {
    if b.len() != 43 || !(0 < b[32] <= NUM_CHOICES_MAX) {
        None
    } else {
        match action_from_bytes(b.subrange(33, 43)) {
            Some(action) => Some(
                Proposal {
                    external_id: Digest::of_bytes(b.subrange(0, 32)),
                    options: Options::of_count(b[32]),
                    action,
                },
            ),
            None => None,
        }
    }
}

/// The proposals that `bytes` encodes one after the other, if any.
pub open spec fn proposals_from_bytes(bytes: Seq<u8>) -> Option<Seq<Proposal>>
    decreases bytes.len(),
{
    if bytes.len() % 43 != 0 {
        None
    } else if bytes.len() == 0 {
        Some(Seq::empty())
    } else {
        match (
            proposals_from_bytes(bytes.subrange(0, bytes.len() - 43)),
            proposal_from_bytes(bytes.subrange(bytes.len() - 43, bytes.len() as int)),
        ) {
            (Some(front), Some(last)) => Some(front.push(last)),
            _ => None,
        }
    }
}

/// The vote plan that `bytes` is the canonical serialization of, if it is
/// one.
pub open spec fn vote_plan_from_bytes(b: Seq<u8>) -> Option<VotePlanView> {
    if b.len() < 26 {
        None
    } else {
        let keys_at = 26 + 43 * (b[25] as int);
        if b.len() < keys_at + 1 {
            None
        } else if b.len() != keys_at + 1 + 8 * (b[keys_at] as int) {
            None
        } else {
            match (
                payload_type_from_byte(b[24]),
                proposals_from_bytes(b.subrange(26, keys_at)),
                elements_from_bytes(b.subrange(keys_at + 1, b.len() as int)),
            ) {
                (Some(payload_type), Some(proposals), Some(keys)) => Some(
                    VotePlanView {
                        vote_start: date_from_word(be_value(b.subrange(0, 8))),
                        vote_end: date_from_word(be_value(b.subrange(8, 16))),
                        committee_end: date_from_word(be_value(b.subrange(16, 24))),
                        proposals,
                        payload_type,
                        committee_public_keys: keys,
                    },
                ),
                _ => None,
            }
        }
    }
}

/// A date is the date of its word.
pub proof fn lemma_date_word_round_trip(d: BlockDate)
    ensures
        date_from_word(date_word(d)) == d,
{
}

/// Reading the encoding of an action gives the action back.
pub proof fn lemma_action_bytes_round_trip(a: VoteAction)
    ensures
        action_bytes(a).len() == 10,
        action_from_bytes(action_bytes(a)) == Some(a),
{
    let b = action_bytes(a);
    match a {
        VoteAction::OffChain => {
            assert(b.subrange(2, 10) =~= be_bytes(0));
            lemma_be_value_of_bytes(0);
        },
        VoteAction::Treasury { action: TreasuryGovernanceAction::NoOp } => {
            assert(b.subrange(2, 10) =~= be_bytes(0));
            lemma_be_value_of_bytes(0);
        },
        VoteAction::Treasury { action: TreasuryGovernanceAction::TransferToRewards { value } } => {
            assert(b.subrange(2, 10) =~= be_bytes(value.0));
            lemma_be_value_of_bytes(value.0);
        },
        VoteAction::Parameters { action: ParametersGovernanceAction::NoOp } => {
            assert(b.subrange(2, 10) =~= be_bytes(0));
            lemma_be_value_of_bytes(0);
        },
        VoteAction::Parameters { action: ParametersGovernanceAction::RewardAdd { value } } => {
            assert(b.subrange(2, 10) =~= be_bytes(value.0));
            lemma_be_value_of_bytes(value.0);
        },
    }
}

/// Reading the encoding of a proposal gives the proposal back.
pub proof fn lemma_proposal_bytes_round_trip(p: Proposal)
    requires
        p.options.is_valid(),
    ensures
        proposal_bytes(p).len() == 43,
        proposal_from_bytes(proposal_bytes(p)) == Some(p),
{
    let b = proposal_bytes(p);
    p.external_id.lemma_len();
    lemma_action_bytes_round_trip(p.action);
    p.options.lemma_of_view();
    assert(b.subrange(0, 32) =~= p.external_id@);
    assert(b.subrange(33, 43) =~= action_bytes(p.action));
    p.external_id.lemma_of_view();
    assert(b[32] == p.options@ as u8);
}

/// The encoding of proposals has 43 bytes for each.
pub proof fn lemma_proposals_bytes_len(s: Seq<Proposal>)
    ensures
        proposals_bytes(s).len() == 43 * s.len(),
    decreases s.len(),
{
    if s.len() > 0 {
        lemma_proposals_bytes_len(s.drop_last());
        s.last().external_id.lemma_len();
        lemma_action_bytes_round_trip(s.last().action);
    }
}

/// Reading the encoding of proposals gives them back.
pub proof fn lemma_proposals_bytes_round_trip(s: Seq<Proposal>)
    requires
        proposals_valid(s),
    ensures
        proposals_from_bytes(proposals_bytes(s)) == Some(s),
    decreases s.len(),
{
    lemma_proposals_bytes_len(s);
    if s.len() > 0 {
        let front = s.drop_last();
        lemma_proposals_bytes_len(front);
        lemma_proposals_bytes_round_trip(front);
        lemma_proposal_bytes_round_trip(s.last());
        let b = proposals_bytes(s);
        assert(b.subrange(0, b.len() - 43) =~= proposals_bytes(front));
        assert(b.subrange(b.len() - 43, b.len() as int) =~= proposal_bytes(s.last()));
        assert(front.push(s.last()) =~= s);
    }
}

/// What reads as proposals has 43 bytes for each, and a prefix of whole
/// proposals reads as the prefix.
pub proof fn lemma_proposals_from_bytes_prefix(bytes: Seq<u8>, count: nat)
    requires
        proposals_from_bytes(bytes) is Some,
        count * 43 <= bytes.len(),
    ensures
        proposals_from_bytes(bytes).unwrap().len() * 43 == bytes.len(),
        proposals_from_bytes(bytes.subrange(0, (count * 43) as int)) == Some(
            proposals_from_bytes(bytes).unwrap().subrange(0, count as int),
        ),
    decreases bytes.len(),
{
    let s = proposals_from_bytes(bytes).unwrap();
    if bytes.len() == 0 {
        assert(bytes.subrange(0, 0) =~= bytes);
        assert(s.subrange(0, 0) =~= s);
    } else {
        let front = bytes.subrange(0, bytes.len() - 43);
        let fs = proposals_from_bytes(front).unwrap();
        if count * 43 == bytes.len() {
            lemma_proposals_from_bytes_prefix(front, (count - 1) as nat);
            assert(bytes.subrange(0, (count * 43) as int) =~= bytes);
            assert(s.subrange(0, count as int) =~= s);
        } else {
            lemma_proposals_from_bytes_prefix(front, count);
            assert(front.subrange(0, (count * 43) as int) =~= bytes.subrange(
                0,
                (count * 43) as int,
            ));
            assert(fs.subrange(0, count as int) =~= s.subrange(0, count as int));
        }
    }
}

/// Reading the canonical serialization of a plan gives the plan back.
pub proof fn lemma_vote_plan_bytes_round_trip(p: VotePlanView)
    requires
        vote_plan_valid(p),
    ensures
        vote_plan_from_bytes(vote_plan_bytes(p)) == Some(p),
{
    let b = vote_plan_bytes(p);
    lemma_proposals_bytes_len(p.proposals);
    lemma_elements_bytes_len(p.committee_public_keys);
    let keys_at: int = 26 + 43 * (p.proposals.len() as int);
    assert(b.len() == keys_at + 1 + 8 * p.committee_public_keys.len());
    assert(b[24] == payload_type_byte(p.payload_type));
    assert(b[25] == p.proposals.len() as u8);
    assert(b[keys_at] == p.committee_public_keys.len() as u8);
    assert(b.subrange(0, 8) =~= be_bytes(date_word(p.vote_start)));
    assert(b.subrange(8, 16) =~= be_bytes(date_word(p.vote_end)));
    assert(b.subrange(16, 24) =~= be_bytes(date_word(p.committee_end)));
    lemma_be_value_of_bytes(date_word(p.vote_start));
    lemma_be_value_of_bytes(date_word(p.vote_end));
    lemma_be_value_of_bytes(date_word(p.committee_end));
    assert(b.subrange(26, keys_at) =~= proposals_bytes(p.proposals));
    assert(b.subrange(keys_at + 1, b.len() as int) =~= elements_bytes(p.committee_public_keys));
    lemma_proposals_bytes_round_trip(p.proposals);
    lemma_elements_bytes_round_trip(p.committee_public_keys);
}

/// A buffer that is the serialization of a plan cut short, or the
/// serialization followed by more bytes, does not read as a plan.
pub proof fn lemma_vote_plan_rejects_other_lengths(p: VotePlanView, bytes: Seq<u8>)
    requires
        vote_plan_valid(p),
        bytes.len() != vote_plan_bytes(p).len(),
        bytes.len() < vote_plan_bytes(p).len() ==> bytes == vote_plan_bytes(p).subrange(
            0,
            bytes.len() as int,
        ),
        bytes.len() > vote_plan_bytes(p).len() ==> vote_plan_bytes(p) == bytes.subrange(
            0,
            vote_plan_bytes(p).len() as int,
        ),
    ensures
        vote_plan_from_bytes(bytes) is None,
{
    let b = vote_plan_bytes(p);
    lemma_proposals_bytes_len(p.proposals);
    lemma_elements_bytes_len(p.committee_public_keys);
    let keys_at: int = 26 + 43 * (p.proposals.len() as int);
    assert(b.len() == keys_at + 1 + 8 * p.committee_public_keys.len());
    assert(b[25] == p.proposals.len() as u8);
    assert(b[keys_at] == p.committee_public_keys.len() as u8);
    if bytes.len() >= 26 {
        assert(bytes[25] == b[25]);
        if bytes.len() >= keys_at + 1 {
            assert(bytes[keys_at] == b[keys_at]);
        }
    }
}

fn action_parse(b: &[u8]) -> (r: Option<VoteAction>)
    requires
        b@.len() == 10,
    ensures
        r == action_from_bytes(b@),
{
    let v = read_be_value(b, 2);
    let kind = b[0];
    let variant = b[1];
    if kind == 0 && variant == 0 && v == 0 {
        Some(VoteAction::OffChain)
    } else if kind == 1 && variant == 0 && v == 0 {
        Some(VoteAction::Treasury { action: TreasuryGovernanceAction::NoOp })
    } else if kind == 1 && variant == 1 {
        Some(
            VoteAction::Treasury {
                action: TreasuryGovernanceAction::TransferToRewards { value: Value(v) },
            },
        )
    } else if kind == 2 && variant == 0 && v == 0 {
        Some(VoteAction::Parameters { action: ParametersGovernanceAction::NoOp })
    } else if kind == 2 && variant == 1 {
        Some(
            VoteAction::Parameters {
                action: ParametersGovernanceAction::RewardAdd { value: Value(v) },
            },
        )
    } else {
        None
    }
}

fn proposal_parse(b: &[u8]) -> (r: Option<Proposal>)
    requires
        b@.len() == 43,
    ensures
        r == proposal_from_bytes(b@),
{
    let options = match Options::new_length(b[32]) {
        Ok(o) => o,
        Err(_) => {
            return None;
        },
    };
    let action = match action_parse(slice_subrange(b, 33, 43)) {
        Some(a) => a,
        None => {
            return None;
        },
    };
    match Digest::from_bytes(slice_subrange(b, 0, 32)) {
        Some(external_id) => Some(Proposal { external_id, options, action }),
        None => None,
    }
}

fn proposals_parse(bytes: &[u8]) -> (r: Option<Proposals>)
    requires
        bytes@.len() % 43 == 0,
        bytes@.len() <= 43 * MAX_PROPOSALS,
    ensures
        match r {
            Some(p) => proposals_from_bytes(bytes@) == Some(p@),
            None => proposals_from_bytes(bytes@) is None,
        },
{
    let count: usize = bytes.len() / 43;
    let mut out = Proposals::new();
    let mut i: usize = 0;
    proof {
        assert(bytes@.subrange(0, 0) =~= Seq::<u8>::empty());
    }
    while i < count
        invariant
            i <= count,
            count * 43 == bytes@.len(),
            count <= MAX_PROPOSALS,
            out@.len() == i,
            proposals_from_bytes(bytes@.subrange(0, i * 43)) == Some(out@),
        decreases count - i,
    {
        let piece = slice_subrange(bytes, i * 43, i * 43 + 43);
        let ghost head = bytes@.subrange(0, i * 43 + 43);
        proof {
            assert(head.subrange(0, head.len() - 43) =~= bytes@.subrange(0, i * 43));
            assert(head.subrange(head.len() - 43, head.len() as int) =~= piece@);
        }
        match proposal_parse(piece) {
            Some(p) => {
                let _pushed = out.push(p);
            },
            None => {
                proof {
                    if proposals_from_bytes(bytes@) is Some {
                        lemma_proposals_from_bytes_prefix(bytes@, (i + 1) as nat);
                    }
                }
                return None;
            },
        }
        i = i + 1;
    }
    proof {
        assert(bytes@.subrange(0, count * 43) =~= bytes@);
    }
    Some(out)
}

fn date_parse(bytes: &[u8], at: usize) -> (r: BlockDate)
    requires
        at + 8 <= bytes@.len(),
    ensures
        r == date_from_word(be_value(bytes@.subrange(at as int, at + 8))),
{
    let w = read_be_value(bytes, at);
    BlockDate { epoch: (w / 0x1_0000_0000) as u32, slot_id: (w % 0x1_0000_0000) as u32 }
}

impl VotePlan {
    /// Reads a plan from its canonical serialization; `None` unless `bytes`
    /// is exactly the serialization of a plan.
    pub fn from_bytes(bytes: &[u8]) -> (r: Option<VotePlan>)
        ensures
            match r {
                Some(p) => vote_plan_from_bytes(bytes@) == Some(p@) && p.well_formed(),
                None => vote_plan_from_bytes(bytes@) is None,
            },
    {
        if bytes.len() < 26 {
            return None;
        }
        let proposals_count = bytes[25] as usize;
        let keys_at: usize = 26 + 43 * proposals_count;
        if bytes.len() < keys_at + 1 {
            return None;
        }
        let keys_count = bytes[keys_at] as usize;
        if bytes.len() != keys_at + 1 + 8 * keys_count {
            return None;
        }
        let payload_type = match bytes[24] {
            1 => PayloadType::Public,
            2 => PayloadType::Private,
            _ => {
                return None;
            },
        };
        let proposals = match proposals_parse(slice_subrange(bytes, 26, keys_at)) {
            Some(p) => p,
            None => {
                return None;
            },
        };
        let elements = match group_elements_from_bytes(
            slice_subrange(bytes, keys_at + 1, bytes.len()),
        ) {
            Some(e) => e,
            None => {
                return None;
            },
        };
        proof {
            lemma_elements_from_bytes_canonical(bytes@.subrange(keys_at + 1, bytes@.len() as int));
        }
        let mut keys: Vec<MemberPublicKey> = Vec::new();
        let mut i: usize = 0;
        while i < elements.len()
            invariant
                i <= elements.len(),
                keys@.len() == i,
                forall|k: int| 0 <= k < i ==> (#[trigger] keys@[k])@ == elements@[k]@,
            decreases elements.len() - i,
        {
            keys.push(MemberPublicKey(PublicKey { pk: elements[i] }));
            i = i + 1;
        }
        proof {
            assert(member_key_values(keys@) =~= element_values(elements@));
        }
        Some(
            VotePlan::new(
                date_parse(bytes, 0),
                date_parse(bytes, 8),
                date_parse(bytes, 16),
                proposals,
                payload_type,
                keys,
            ),
        )
    }
}

} // verus!
