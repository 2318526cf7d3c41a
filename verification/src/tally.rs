//! The encrypted tally: ballots are added without being opened, each
//! committee member contributes a decryption share, and the shares together
//! open the totals.

use crate::codec::{be_bytes, be_value, push_be_bytes, read_be_value};
use crate::committee::MemberSecretKey;
use crate::gang::{
    element_bytes, element_from_bytes, element_values, ge_scale, ge_sub, ge_sum, ge_zero,
    is_member, lemma_element_bytes_round_trip, lemma_element_from_bytes_canonical,
    lemma_scale_reduces, GroupElement, Scalar,
};
use crate::gargamel::{
    ciphertext_values, ct_add, ct_bytes, ct_from_bytes, ct_is_valid, ct_scale, ct_zero,
    lemma_ct_bytes_round_trip, lemma_ct_from_bytes_canonical, Ciphertext,
};
use crate::generator::gen_pow;
use crate::modarith::{lemma_pow_mod_adds, lemma_pow_mod_small_exponents, modulus, order};
use std::ops::Range;
use vstd::arithmetic::div_mod::*;
use vstd::prelude::*;
use vstd::slice::slice_subrange;

verus! {

/// Secret key for opening a tally.
pub type OpeningVoteKey = MemberSecretKey;

/// A ballot: one ciphertext per option.
pub type EncryptedVote = Vec<Ciphertext>;

/// Dense encoding of a sequence of group elements.
pub open spec fn elements_bytes(s: Seq<nat>) -> Seq<u8>
    decreases s.len(),
{
    if s.len() == 0 {
        Seq::empty()
    } else {
        elements_bytes(s.drop_last()) + element_bytes(s.last())
    }
}

/// The sequence of group elements that `bytes` densely encodes, if any.
pub open spec fn elements_from_bytes(bytes: Seq<u8>) -> Option<Seq<nat>>
    decreases bytes.len(),
{
    if bytes.len() % 8 != 0 {
        None
    } else if bytes.len() == 0 {
        Some(Seq::empty())
    } else {
        match (
            elements_from_bytes(bytes.subrange(0, bytes.len() - 8)),
            element_from_bytes(bytes.subrange(bytes.len() - 8, bytes.len() as int)),
        ) {
            (Some(front), Some(last)) => Some(front.push(last)),
            _ => None,
        }
    }
}

/// Whether every entry is a group element.
pub open spec fn all_members(s: Seq<nat>) -> bool {
    forall|i: int| 0 <= i < s.len() ==> is_member(#[trigger] s[i])
}

/// The dense encoding has eight bytes per element.
pub proof fn lemma_elements_bytes_len(s: Seq<nat>)
    ensures
        elements_bytes(s).len() == 8 * s.len(),
    decreases s.len(),
{
    if s.len() > 0 {
        lemma_elements_bytes_len(s.drop_last());
    }
}

/// Decoding the dense encoding of group elements gives them back.
pub proof fn lemma_elements_bytes_round_trip(s: Seq<nat>)
    requires
        all_members(s),
    ensures
        elements_from_bytes(elements_bytes(s)) == Some(s),
    decreases s.len(),
{
    lemma_elements_bytes_len(s);
    if s.len() > 0 {
        let front = s.drop_last();
        lemma_elements_bytes_len(front);
        lemma_elements_bytes_round_trip(front);
        lemma_element_bytes_round_trip(s.last());
        let b = elements_bytes(s);
        assert(b.subrange(0, b.len() - 8) =~= elements_bytes(front));
        assert(b.subrange(b.len() - 8, b.len() as int) =~= element_bytes(s.last()));
        assert(front.push(s.last()) =~= s);
    }
}

/// What densely decodes to group elements is their dense encoding, and has
/// eight bytes for each.
pub proof fn lemma_elements_from_bytes_canonical(bytes: Seq<u8>)
    requires
        elements_from_bytes(bytes) is Some,
    ensures
        elements_bytes(elements_from_bytes(bytes).unwrap()) == bytes,
        elements_from_bytes(bytes).unwrap().len() * 8 == bytes.len(),
        all_members(elements_from_bytes(bytes).unwrap()),
    decreases bytes.len(),
{
    if bytes.len() > 0 {
        let front = bytes.subrange(0, bytes.len() - 8);
        let tail = bytes.subrange(bytes.len() - 8, bytes.len() as int);
        lemma_elements_from_bytes_canonical(front);
        lemma_element_from_bytes_canonical(tail);
        let s = elements_from_bytes(bytes).unwrap();
        assert(s.drop_last() =~= elements_from_bytes(front).unwrap());
        assert(front + tail =~= bytes);
    } else {
        assert(bytes =~= Seq::<u8>::empty());
    }
}

/// A prefix of whole elements of what decodes, decodes to the prefix.
pub proof fn lemma_elements_from_bytes_prefix(bytes: Seq<u8>, count: nat)
    requires
        elements_from_bytes(bytes) is Some,
        count * 8 <= bytes.len(),
    ensures
        elements_from_bytes(bytes.subrange(0, (count * 8) as int)) == Some(
            elements_from_bytes(bytes).unwrap().subrange(0, count as int),
        ),
    decreases bytes.len(),
{
    lemma_elements_from_bytes_canonical(bytes);
    let s = elements_from_bytes(bytes).unwrap();
    if count * 8 == bytes.len() {
        assert(bytes.subrange(0, (count * 8) as int) =~= bytes);
        assert(s.subrange(0, count as int) =~= s);
    } else {
        let front = bytes.subrange(0, bytes.len() - 8);
        lemma_elements_from_bytes_prefix(front, count);
        assert(front.subrange(0, (count * 8) as int) =~= bytes.subrange(0, (count * 8) as int));
        let fs = elements_from_bytes(front).unwrap();
        assert(fs.subrange(0, count as int) =~= s.subrange(0, count as int));
    }
}

/// Densely encodes the elements, one after the other.
pub fn group_elements_to_bytes(elements: &[GroupElement]) -> (out: Vec<u8>)
    ensures
        out@ == elements_bytes(element_values(elements@)),
{
    let ghost vals = element_values(elements@);
    let mut out: Vec<u8> = Vec::new();
    let mut i: usize = 0;
    while i < elements.len()
        invariant
            i <= elements.len(),
            vals == element_values(elements@),
            out@ == elements_bytes(vals.subrange(0, i as int)),
        decreases elements.len() - i,
    {
        let mut piece = elements[i].to_bytes();
        proof {
            let next = vals.subrange(0, i + 1);
            assert(next.drop_last() =~= vals.subrange(0, i as int));
            assert(next.last() == elements@[i as int]@);
        }
        out.append(&mut piece);
        i = i + 1;
    }
    proof {
        assert(vals.subrange(0, elements.len() as int) =~= vals);
    }
    out
}

/// Decodes a dense sequence of group elements; `None` unless the length is a
/// multiple of the element size and every piece decodes.
pub fn group_elements_from_bytes(bytes: &[u8]) -> (r: Option<Vec<GroupElement>>)
    ensures
        match r {
            Some(v) => elements_from_bytes(bytes@) == Some(element_values(v@)),
            None => elements_from_bytes(bytes@) is None,
        },
{
    if bytes.len() % 8 != 0 {
        return None;
    }
    let count: usize = bytes.len() / 8;
    let mut out: Vec<GroupElement> = Vec::new();
    let mut i: usize = 0;
    proof {
        assert(bytes@.subrange(0, 0) =~= Seq::<u8>::empty());
        assert(element_values(out@) =~= Seq::<nat>::empty());
    }
    while i < count
        invariant
            i <= count,
            count * 8 == bytes@.len(),
            bytes@.len() <= usize::MAX,
            out@.len() == i,
            elements_from_bytes(bytes@.subrange(0, i * 8)) == Some(element_values(out@)),
        decreases count - i,
    {
        let piece = slice_subrange(bytes, i * 8, i * 8 + 8);
        let ghost head = bytes@.subrange(0, i * 8 + 8);
        proof {
            assert(head.subrange(0, head.len() - 8) =~= bytes@.subrange(0, i * 8));
            assert(head.subrange(head.len() - 8, head.len() as int) =~= piece@);
        }
        match GroupElement::from_bytes(piece) {
            Some(e) => {
                let ghost before = element_values(out@);
                out.push(e);
                proof {
                    assert(element_values(out@) =~= before.push(e@));
                }
            },
            None => {
                proof {
                    if elements_from_bytes(bytes@) is Some {
                        lemma_elements_from_bytes_prefix(bytes@, (i + 1) as nat);
                    }
                }
                return None;
            },
        }
        i = i + 1;
    }
    proof {
        assert(bytes@.subrange(0, count * 8) =~= bytes@);
    }
    Some(out)
}

/// Length-prefixed encoding of a sequence of group elements: the count as a
/// big-endian word, then the elements.
pub open spec fn prefixed_bytes(s: Seq<nat>) -> Seq<u8> {
    be_bytes(s.len() as u64) + elements_bytes(s)
}

/// The sequence of group elements that `bytes` encodes with a length
/// prefix, if any.
pub open spec fn prefixed_from_bytes(bytes: Seq<u8>) -> Option<Seq<nat>> {
    if bytes.len() < 8 {
        None
    } else if (bytes.len() - 8) != 8 * (be_value(bytes.subrange(0, 8)) as int) {
        None
    } else {
        elements_from_bytes(bytes.subrange(8, bytes.len() as int))
    }
}

/// Decoding the length-prefixed encoding of group elements gives them back.
pub proof fn lemma_prefixed_bytes_round_trip(s: Seq<nat>)
    requires
        all_members(s),
        s.len() <= u64::MAX,
    ensures
        prefixed_from_bytes(prefixed_bytes(s)) == Some(s),
{
    let b = prefixed_bytes(s);
    lemma_elements_bytes_len(s);
    crate::codec::lemma_be_value_of_bytes(s.len() as u64);
    assert(b.subrange(0, 8) =~= be_bytes(s.len() as u64));
    assert(b.subrange(8, b.len() as int) =~= elements_bytes(s));
    lemma_elements_bytes_round_trip(s);
}

/// What decodes with a length prefix is the length-prefixed encoding of what
/// it decodes to.
pub proof fn lemma_prefixed_from_bytes_canonical(bytes: Seq<u8>)
    requires
        prefixed_from_bytes(bytes) is Some,
    ensures
        prefixed_bytes(prefixed_from_bytes(bytes).unwrap()) == bytes,
{
    let body = bytes.subrange(8, bytes.len() as int);
    lemma_elements_from_bytes_canonical(body);
    crate::codec::lemma_be_bytes_of_value(bytes.subrange(0, 8));
    assert(bytes.subrange(0, 8) + body =~= bytes);
}

/// A buffer that is a length-prefixed encoding cut short or extended does
/// not decode.
pub proof fn lemma_prefixed_rejects_other_lengths(s: Seq<nat>, bytes: Seq<u8>)
    requires
        all_members(s),
        s.len() <= u64::MAX,
        bytes.len() != prefixed_bytes(s).len(),
        bytes.len() < 8 || bytes.subrange(0, 8) == prefixed_bytes(s).subrange(0, 8),
    ensures
        prefixed_from_bytes(bytes) is None,
{
    lemma_elements_bytes_len(s);
    crate::codec::lemma_be_value_of_bytes(s.len() as u64);
    assert(prefixed_bytes(s).subrange(0, 8) =~= be_bytes(s.len() as u64));
}

fn prefixed_to_bytes(elements: &Vec<GroupElement>) -> (out: Vec<u8>)
    ensures
        out@ == prefixed_bytes(element_values(elements@)),
{
    let mut out: Vec<u8> = Vec::new();
    push_be_bytes(&mut out, elements.len() as u64);
    let mut body = group_elements_to_bytes(elements.as_slice());
    out.append(&mut body);
    proof {
        assert(out@ =~= prefixed_bytes(element_values(elements@)));
    }
    out
}

fn prefixed_parse(bytes: &[u8]) -> (r: Option<Vec<GroupElement>>)
    ensures
        match r {
            Some(v) => prefixed_from_bytes(bytes@) == Some(element_values(v@)),
            None => prefixed_from_bytes(bytes@) is None,
        },
{
    if bytes.len() < 8 {
        return None;
    }
    let count: u64 = read_be_value(bytes, 0);
    let rest: usize = bytes.len() - 8;
    if rest % 8 != 0 || (rest / 8) as u64 != count {
        proof {
            if rest % 8 != 0 {
                assert(rest != 8 * (count as int));
            }
        }
        return None;
    }
    group_elements_from_bytes(slice_subrange(bytes, 8, bytes.len()))
}

/// The decryption share of one committee member: for each option, the first
/// component of the tally's ciphertext taken `sk` times.
#[derive(Clone, Debug, PartialEq, Eq, Hash)]
pub struct TallyDecryptShare {
    r1s: Vec<GroupElement>,
}

/// The second components of a tally's ciphertexts, exposed once the tally is
/// closed.
#[derive(Clone, Debug)]
pub struct TallyState {
    pub r2s: Vec<GroupElement>,
}

/// The totals recovered from a tally: for each option the number of votes,
/// or `None` where it was not found within the budget.
#[derive(Debug, Eq, PartialEq)]
pub struct TallyResult {
    pub votes: Vec<Option<u64>>,
    pub options: Range<u8>,
}

impl Clone for TallyResult {
    fn clone(&self) -> (r: TallyResult)
        ensures
            r.votes@ == self.votes@,
            r.options == self.options,
    {
        let mut votes: Vec<Option<u64>> = Vec::new();
        let mut i: usize = 0;
        while i < self.votes.len()
            invariant
                i <= self.votes.len(),
                votes@ == self.votes@.subrange(0, i as int),
            decreases self.votes.len() - i,
        {
            votes.push(self.votes[i]);
            proof {
                assert(self.votes@.subrange(0, i + 1) =~= self.votes@.subrange(0, i as int).push(
                    self.votes@[i as int],
                ));
            }
            i = i + 1;
        }
        proof {
            assert(self.votes@.subrange(0, self.votes.len() as int) =~= self.votes@);
        }
        TallyResult { votes, options: Range { start: self.options.start, end: self.options.end } }
    }
}

impl View for TallyDecryptShare {
    type V = Seq<nat>;

    closed spec fn view(&self) -> Seq<nat> {
        element_values(self.r1s@)
    }
}

impl View for TallyState {
    type V = Seq<nat>;

    open spec fn view(&self) -> Seq<nat> {
        element_values(self.r2s@)
    }
}

impl TallyDecryptShare {
    /// Every element of a share is a member of the group.
    pub proof fn lemma_all_members(self)
        ensures
            all_members(self@),
            self@.len() <= usize::MAX,
    {
        assert forall|i: int| 0 <= i < self@.len() implies is_member(#[trigger] self@[i]) by {
            self.r1s@[i].lemma_is_member();
        }
        assert(self.r1s.len() == self@.len());
    }

    /// Decoding the encoding of a share gives its elements back.
    pub proof fn lemma_bytes_round_trip(self)
        ensures
            prefixed_from_bytes(prefixed_bytes(self@)) == Some(self@),
    {
        self.lemma_all_members();
        lemma_prefixed_bytes_round_trip(self@);
    }

    /// The share made of the given elements, one per option.
    pub fn from_elements(r1s: Vec<GroupElement>) -> (r: TallyDecryptShare)
        ensures
            r@ == element_values(r1s@),
    {
        TallyDecryptShare { r1s }
    }

    /// A copy of the share.
    pub fn duplicate(&self) -> (r: TallyDecryptShare)
        ensures
            r@ == self@,
    {
        TallyDecryptShare { r1s: crate::hash::copy_vec(&self.r1s) }
    }

    /// Number of options the share covers.
    pub fn options(&self) -> (n: usize)
        ensures
            n == self@.len(),
    {
        self.r1s.len()
    }

    /// The share's element for option `i`.
    pub fn element(&self, i: usize) -> (e: GroupElement)
        requires
            i < self@.len(),
        ensures
            e@ == self@[i as int],
    {
        self.r1s[i]
    }

    /// Length-prefixed encoding: the number of options as a big-endian word,
    /// then one group element per option.
    pub fn to_bytes(&self) -> (out: Vec<u8>)
        ensures
            out@ == prefixed_bytes(self@),
    {
        prefixed_to_bytes(&self.r1s)
    }

    /// Appends the length-prefixed encoding of the share.
    pub fn serialize_in(&self, out: &mut Vec<u8>)
        ensures
            final(out)@ == old(out)@ + prefixed_bytes(self@),
    {
        let mut bytes = prefixed_to_bytes(&self.r1s);
        out.append(&mut bytes);
    }

    /// The same encoding as `to_bytes`.
    pub fn serialize(&self) -> (out: Vec<u8>)
        ensures
            out@ == prefixed_bytes(self@),
    {
        self.to_bytes()
    }

    /// Decodes a share; `None` unless `bytes` is exactly a length prefix
    /// followed by that many encoded group elements.
    pub fn from_bytes(bytes: &[u8]) -> (r: Option<TallyDecryptShare>)
        ensures
            match r {
                Some(s) => prefixed_from_bytes(bytes@) == Some(s@),
                None => prefixed_from_bytes(bytes@) is None,
            },
    {
        match prefixed_parse(bytes) {
            Some(r1s) => Some(TallyDecryptShare { r1s }),
            None => None,
        }
    }
}

impl TallyState {
    /// Every element of a state is a member of the group.
    pub proof fn lemma_all_members(self)
        ensures
            all_members(self@),
            self@.len() <= usize::MAX,
    {
        assert forall|i: int| 0 <= i < self@.len() implies is_member(#[trigger] self@[i]) by {
            self.r2s@[i].lemma_is_member();
        }
        assert(self.r2s.len() == self@.len());
    }

    /// Decoding the encoding of a state gives its elements back.
    pub proof fn lemma_bytes_round_trip(self)
        ensures
            prefixed_from_bytes(prefixed_bytes(self@)) == Some(self@),
    {
        self.lemma_all_members();
        lemma_prefixed_bytes_round_trip(self@);
    }

    /// Length-prefixed encoding: the number of options as a big-endian word,
    /// then one group element per option.
    pub fn to_bytes(&self) -> (out: Vec<u8>)
        ensures
            out@ == prefixed_bytes(self@),
    {
        prefixed_to_bytes(&self.r2s)
    }

    /// Decodes a state; `None` unless `bytes` is exactly a length prefix
    /// followed by that many encoded group elements.
    pub fn from_bytes(bytes: &[u8]) -> (r: Option<TallyState>)
        ensures
            match r {
                Some(s) => prefixed_from_bytes(bytes@) == Some(s@),
                None => prefixed_from_bytes(bytes@) is None,
            },
    {
        match prefixed_parse(bytes) {
            Some(r2s) => Some(TallyState { r2s }),
            None => None,
        }
    }
}

/// Dense encoding of a sequence of ciphertexts.
pub open spec fn tally_bytes(t: Seq<(nat, nat)>) -> Seq<u8>
    decreases t.len(),
{
    if t.len() == 0 {
        Seq::empty()
    } else {
        tally_bytes(t.drop_last()) + ct_bytes(t.last())
    }
}

/// The sequence of ciphertexts that `bytes` densely encodes, if any.
pub open spec fn tally_from_bytes(bytes: Seq<u8>) -> Option<Seq<(nat, nat)>>
    decreases bytes.len(),
{
    if bytes.len() % 16 != 0 {
        None
    } else if bytes.len() == 0 {
        Some(Seq::empty())
    } else {
        match (
            tally_from_bytes(bytes.subrange(0, bytes.len() - 16)),
            ct_from_bytes(bytes.subrange(bytes.len() - 16, bytes.len() as int)),
        ) {
            (Some(front), Some(last)) => Some(front.push(last)),
            _ => None,
        }
    }
}

/// Whether every entry is a valid ciphertext.
pub open spec fn all_valid(t: Seq<(nat, nat)>) -> bool {
    forall|i: int| 0 <= i < t.len() ==> ct_is_valid(#[trigger] t[i])
}

/// The dense encoding has sixteen bytes per ciphertext.
pub proof fn lemma_tally_bytes_len(t: Seq<(nat, nat)>)
    ensures
        tally_bytes(t).len() == 16 * t.len(),
    decreases t.len(),
{
    if t.len() > 0 {
        lemma_tally_bytes_len(t.drop_last());
    }
}

/// Decoding the dense encoding of ciphertexts gives them back.
pub proof fn lemma_tally_bytes_round_trip(t: Seq<(nat, nat)>)
    requires
        all_valid(t),
    ensures
        tally_from_bytes(tally_bytes(t)) == Some(t),
    decreases t.len(),
{
    lemma_tally_bytes_len(t);
    if t.len() > 0 {
        let front = t.drop_last();
        lemma_tally_bytes_len(front);
        lemma_tally_bytes_round_trip(front);
        lemma_ct_bytes_round_trip(t.last());
        let b = tally_bytes(t);
        assert(b.subrange(0, b.len() - 16) =~= tally_bytes(front));
        assert(b.subrange(b.len() - 16, b.len() as int) =~= ct_bytes(t.last()));
        assert(front.push(t.last()) =~= t);
    }
}

/// What densely decodes to ciphertexts is their dense encoding.
pub proof fn lemma_tally_from_bytes_canonical(bytes: Seq<u8>)
    requires
        tally_from_bytes(bytes) is Some,
    ensures
        tally_bytes(tally_from_bytes(bytes).unwrap()) == bytes,
        tally_from_bytes(bytes).unwrap().len() * 16 == bytes.len(),
        all_valid(tally_from_bytes(bytes).unwrap()),
    decreases bytes.len(),
{
    if bytes.len() > 0 {
        let front = bytes.subrange(0, bytes.len() - 16);
        let tail = bytes.subrange(bytes.len() - 16, bytes.len() as int);
        lemma_tally_from_bytes_canonical(front);
        lemma_ct_from_bytes_canonical(tail);
        let t = tally_from_bytes(bytes).unwrap();
        assert(t.drop_last() =~= tally_from_bytes(front).unwrap());
        assert(front + tail =~= bytes);
    } else {
        assert(bytes =~= Seq::<u8>::empty());
    }
}

/// A prefix of whole ciphertexts of what decodes, decodes to the prefix.
pub proof fn lemma_tally_from_bytes_prefix(bytes: Seq<u8>, count: nat)
    requires
        tally_from_bytes(bytes) is Some,
        count * 16 <= bytes.len(),
    ensures
        tally_from_bytes(bytes.subrange(0, (count * 16) as int)) == Some(
            tally_from_bytes(bytes).unwrap().subrange(0, count as int),
        ),
    decreases bytes.len(),
{
    lemma_tally_from_bytes_canonical(bytes);
    let t = tally_from_bytes(bytes).unwrap();
    if count * 16 == bytes.len() {
        assert(bytes.subrange(0, (count * 16) as int) =~= bytes);
        assert(t.subrange(0, count as int) =~= t);
    } else {
        let front = bytes.subrange(0, bytes.len() - 16);
        lemma_tally_from_bytes_prefix(front, count);
        assert(front.subrange(0, (count * 16) as int) =~= bytes.subrange(0, (count * 16) as int));
        let ft = tally_from_bytes(front).unwrap();
        assert(ft.subrange(0, count as int) =~= t.subrange(0, count as int));
    }
}

/// A buffer whose length is no multiple of the ciphertext size does not
/// decode.
pub proof fn lemma_tally_rejects_ragged_lengths(bytes: Seq<u8>)
    requires
        bytes.len() % 16 != 0,
    ensures
        tally_from_bytes(bytes) is None,
{
}

/// The tally of `options` slots before any ballot.
pub open spec fn tally_new(options: nat) -> Seq<(nat, nat)> {
    Seq::new(options, |j: int| ct_zero())
}

/// The tally after a ballot was added with a weight: slot by slot, the old
/// ciphertext plus the ballot's ciphertext taken `weight` times.
pub open spec fn tally_add(t: Seq<(nat, nat)>, vote: Seq<(nat, nat)>, weight: nat) -> Seq<
    (nat, nat),
>
    recommends
        t.len() == vote.len(),
{
    Seq::new(t.len(), |j: int| ct_add(t[j], ct_scale(vote[j], weight)))
}

/// The decryption share that the secret `sk` gives for a tally.
pub open spec fn tally_share(t: Seq<(nat, nat)>, sk: nat) -> Seq<nat> {
    Seq::new(t.len(), |j: int| ge_scale(t[j].0, sk))
}

/// The second components of a tally.
pub open spec fn tally_state(t: Seq<(nat, nat)>) -> Seq<nat> {
    Seq::new(t.len(), |j: int| t[j].1)
}

/// The encrypted tally: one ciphertext per option.
#[derive(Clone, Debug, PartialEq, Eq)]
pub struct EncryptedTally {
    r: Vec<Ciphertext>,
}

impl View for EncryptedTally {
    type V = Seq<(nat, nat)>;

    closed spec fn view(&self) -> Seq<(nat, nat)> {
        ciphertext_values(self.r@)
    }
}

impl EncryptedTally {
    /// Every slot of a tally is a valid ciphertext.
    pub proof fn lemma_all_valid(self)
        ensures
            all_valid(self@),
    {
        assert forall|i: int| 0 <= i < self@.len() implies ct_is_valid(#[trigger] self@[i]) by {
            self.r@[i].lemma_is_valid();
        }
    }

    /// Starts a tally with `options` slots, each the zero ciphertext.
    pub fn new(options: usize) -> (r: EncryptedTally)
        ensures
            r@ == tally_new(options as nat),
    {
        let mut r: Vec<Ciphertext> = Vec::new();
        let mut i: usize = 0;
        while i < options
            invariant
                i <= options,
                r@.len() == i,
                forall|j: int| 0 <= j < i ==> (#[trigger] r@[j])@ == ct_zero(),
            decreases options - i,
        {
            r.push(Ciphertext::zero());
            i = i + 1;
        }
        proof {
            assert(ciphertext_values(r@) =~= tally_new(options as nat));
        }
        EncryptedTally { r }
    }

    /// Number of slots.
    pub fn options(&self) -> (n: usize)
        ensures
            n == self@.len(),
    {
        self.r.len()
    }

    /// A copy of the tally.
    pub fn duplicate(&self) -> (r: EncryptedTally)
        ensures
            r@ == self@,
    {
        EncryptedTally { r: crate::hash::copy_vec(&self.r) }
    }

    /// Adds a ballot with a weight: each slot grows by the ballot's
    /// ciphertext taken `weight` times. The ballot has one ciphertext per
    /// slot of the tally.
    pub fn add(&mut self, vote: &EncryptedVote, weight: u64)
        requires
            vote@.len() == old(self)@.len(),
        ensures
            final(self)@ == tally_add(old(self)@, ciphertext_values(vote@), weight as nat),
    {
        let ghost before = self@;
        let ghost votes = ciphertext_values(vote@);
        let w = Scalar::from_u64(weight);
        let n = self.r.len();
        let mut i: usize = 0;
        while i < n
            invariant
                i <= n,
                n == before.len(),
                n == vote@.len(),
                self.r@.len() == n,
                votes == ciphertext_values(vote@),
                w@ == (weight as nat) % order(),
                forall|j: int|
                    0 <= j < i ==> (#[trigger] self.r@[j])@ == ct_add(
                        before[j],
                        ct_scale(votes[j], weight as nat),
                    ),
                forall|j: int| i <= j < n ==> (#[trigger] self.r@[j])@ == before[j],
            decreases n - i,
        {
            let scaled = vote[i].scale(&w);
            let sum = self.r[i].add(&scaled);
            proof {
                vote@[i as int].lemma_is_valid();
                lemma_scale_reduces(votes[i as int].0, weight as nat);
                lemma_scale_reduces(votes[i as int].1, weight as nat);
            }
            self.r.set(i, sum);
            i = i + 1;
        }
        proof {
            assert(self@ =~= tally_add(before, votes, weight as nat));
        }
    }

    /// Closes the tally for one committee member: the state, and the
    /// member's decryption share.
    pub fn finish(&self, secret_key: &OpeningVoteKey) -> (r: (TallyState, TallyDecryptShare))
        ensures
            r.0@ == tally_state(self@),
            r.1@ == tally_share(self@, secret_key@),
    {
        let mut dshares: Vec<GroupElement> = Vec::new();
        let mut r2s: Vec<GroupElement> = Vec::new();
        let mut i: usize = 0;
        while i < self.r.len()
            invariant
                i <= self.r.len(),
                dshares@.len() == i,
                r2s@.len() == i,
                forall|j: int| 0 <= j < i ==> (#[trigger] r2s@[j])@ == self.r@[j]@.1,
                forall|j: int|
                    0 <= j < i ==> (#[trigger] dshares@[j])@ == ge_scale(
                        self.r@[j]@.0,
                        secret_key@,
                    ),
            decreases self.r.len() - i,
        {
            let (r1, r2) = self.r[i].elements();
            dshares.push(r1.scalar_mul(&secret_key.0.sk));
            r2s.push(r2);
            i = i + 1;
        }
        let state = TallyState { r2s };
        let share = TallyDecryptShare { r1s: dshares };
        proof {
            assert(state@ =~= tally_state(self@));
            assert(share@ =~= tally_share(self@, secret_key@));
        }
        (state, share)
    }

    /// The second components of the slots.
    pub fn state(&self) -> (r: TallyState)
        ensures
            r@ == tally_state(self@),
    {
        let mut r2s: Vec<GroupElement> = Vec::new();
        let mut i: usize = 0;
        while i < self.r.len()
            invariant
                i <= self.r.len(),
                r2s@.len() == i,
                forall|j: int| 0 <= j < i ==> (#[trigger] r2s@[j])@ == self.r@[j]@.1,
            decreases self.r.len() - i,
        {
            let (_r1, r2) = self.r[i].elements();
            r2s.push(r2);
            i = i + 1;
        }
        let state = TallyState { r2s };
        proof {
            assert(state@ =~= tally_state(self@));
        }
        state
    }

    /// Dense encoding: the slots' ciphertexts, one after the other.
    pub fn to_bytes(&self) -> (out: Vec<u8>)
        ensures
            out@ == tally_bytes(self@),
    {
        ciphertexts_to_bytes(self.r.as_slice())
    }

    /// Decodes a tally; `None` unless the length is a multiple of the
    /// ciphertext size and every slot decodes.
    pub fn from_bytes(bytes: &[u8]) -> (r: Option<EncryptedTally>)
        ensures
            match r {
                Some(t) => tally_from_bytes(bytes@) == Some(t@),
                None => tally_from_bytes(bytes@) is None,
            },
    {
        match ciphertexts_from_bytes(bytes) {
            Some(r) => Some(EncryptedTally { r }),
            None => None,
        }
    }
}

/// Densely encodes the ciphertexts, one after the other.
pub fn ciphertexts_to_bytes(ciphertexts: &[Ciphertext]) -> (out: Vec<u8>)
    ensures
        out@ == tally_bytes(ciphertext_values(ciphertexts@)),
{
    let ghost vals = ciphertext_values(ciphertexts@);
    let mut out: Vec<u8> = Vec::new();
    let mut i: usize = 0;
    while i < ciphertexts.len()
        invariant
            i <= ciphertexts.len(),
            vals == ciphertext_values(ciphertexts@),
            out@ == tally_bytes(vals.subrange(0, i as int)),
        decreases ciphertexts.len() - i,
    {
        let mut piece = ciphertexts[i].to_bytes();
        proof {
            let next = vals.subrange(0, i + 1);
            assert(next.drop_last() =~= vals.subrange(0, i as int));
            assert(next.last() == ciphertexts@[i as int]@);
        }
        out.append(&mut piece);
        i = i + 1;
    }
    proof {
        assert(vals.subrange(0, ciphertexts.len() as int) =~= vals);
    }
    out
}

/// Decodes a dense sequence of ciphertexts; `None` unless the length is a
/// multiple of the ciphertext size and every piece decodes.
#[verifier::spinoff_prover]
#[verifier::rlimit(60)]
pub fn ciphertexts_from_bytes(bytes: &[u8]) -> (r: Option<Vec<Ciphertext>>)
    ensures
        match r {
            Some(v) => tally_from_bytes(bytes@) == Some(ciphertext_values(v@)),
            None => tally_from_bytes(bytes@) is None,
        },
{
    if bytes.len() % 16 != 0 {
        return None;
    }
    let count: usize = bytes.len() / 16;
    let mut out: Vec<Ciphertext> = Vec::new();
    let mut i: usize = 0;
    proof {
        assert(bytes@.subrange(0, 0) =~= Seq::<u8>::empty());
        assert(ciphertext_values(out@) =~= Seq::<(nat, nat)>::empty());
    }
    while i < count
        invariant
            i <= count,
            count * 16 == bytes@.len(),
            bytes@.len() <= usize::MAX,
            out@.len() == i,
            tally_from_bytes(bytes@.subrange(0, i * 16)) == Some(ciphertext_values(out@)),
        decreases count - i,
    {
        let piece = slice_subrange(bytes, i * 16, i * 16 + 16);
        let ghost head = bytes@.subrange(0, i * 16 + 16);
        proof {
            assert(head.subrange(0, head.len() - 16) =~= bytes@.subrange(0, i * 16));
            assert(head.subrange(head.len() - 16, head.len() as int) =~= piece@);
        }
        match Ciphertext::from_bytes(piece) {
            Some(c) => {
                let ghost before = ciphertext_values(out@);
                out.push(c);
                proof {
                    assert(ciphertext_values(out@) =~= before.push(c@));
                }
            },
            None => {
                proof {
                    if tally_from_bytes(bytes@) is Some {
                        lemma_tally_from_bytes_prefix(bytes@, (i + 1) as nat);
                    }
                }
                return None;
            },
        }
        i = i + 1;
    }
    proof {
        assert(bytes@.subrange(0, count * 16) =~= bytes@);
    }
    Some(out)
}

/// The least `k` in `[lo, hi)` for which the generator taken `k` times is
/// `r`, if there is one.
pub open spec fn find_log(r: nat, lo: nat, hi: nat) -> Option<nat>
    decreases hi - lo,
{
    if lo >= hi {
        None
    } else if gen_pow(lo) == r {
        Some(lo)
    } else {
        find_log(r, lo + 1, hi)
    }
}

/// The number of votes that the group element `r` stands for, searched with
/// a table of `table_size` entries and a budget of `budget` votes.
///
/// The neutral element stands for zero votes. Else the table of the first
/// `table_size` multiples of the generator is searched; a hit above the
/// budget is no result. Else the search goes on past the table, over the
/// counts up to the budget.
pub open spec fn decode_slot(r: nat, table_size: nat, budget: nat) -> Option<nat> {
    if r == ge_zero() {
        Some(0)
    } else {
        match find_log(r, 1, table_size + 1) {
            Some(k) => if k <= budget {
                Some(k)
            } else {
                None
            },
            None => find_log(r, table_size + 1, budget + 1),
        }
    }
}

/// What is left of the budget before slot `j`: the votes allowed at the
/// start, less those found in the slots before `j`.
pub open spec fn budget_before(rs: Seq<nat>, table_size: nat, max_votes: nat, j: nat) -> nat
    decreases j,
{
    if j == 0 {
        max_votes
    } else {
        let left = budget_before(rs, table_size, max_votes, (j - 1) as nat);
        match decode_slot(rs[j - 1], table_size, left) {
            Some(v) => (left - v) as nat,
            None => left,
        }
    }
}

/// The element that slot `j` opens to: the state's element less the sum of
/// all shares' elements for that slot.
pub open spec fn opened_slot(state: Seq<nat>, shares: Seq<Seq<nat>>, j: int) -> nat {
    ge_sub(state[j], ge_sum(Seq::new(shares.len(), |i: int| shares[i][j])))
}

/// The elements that all slots open to.
pub open spec fn opened_slots(state: Seq<nat>, shares: Seq<Seq<nat>>) -> Seq<nat> {
    Seq::new(state.len(), |j: int| opened_slot(state, shares, j))
}

/// The views of a sequence of shares.
pub open spec fn share_values(s: Seq<TallyDecryptShare>) -> Seq<Seq<nat>> {
    s.map_values(|d: TallyDecryptShare| d@)
}

/// The totals of all slots: slot `j` is decoded with the budget that the
/// slots before it have left.
pub open spec fn decode_slots(rs: Seq<nat>, table_size: nat, max_votes: nat) -> Seq<Option<nat>> {
    Seq::new(
        rs.len(),
        |j: int| decode_slot(rs[j], table_size, budget_before(rs, table_size, max_votes, j as nat)),
    )
}

/// A found count is within the range searched and stands for the element.
pub proof fn lemma_find_log_found(r: nat, lo: nat, hi: nat)
    ensures
        match find_log(r, lo, hi) {
            Some(k) => lo <= k < hi && gen_pow(k) == r && forall|d: nat|
                lo <= d < k ==> gen_pow(d) != r,
            None => forall|d: nat| lo <= d < hi ==> gen_pow(d) != r,
        },
    decreases hi - lo,
{
    if lo < hi && gen_pow(lo) != r {
        lemma_find_log_found(r, lo + 1, hi);
    }
}

/// A decoded count never exceeds the budget.
pub proof fn lemma_decode_slot_within_budget(r: nat, table_size: nat, budget: nat)
    ensures
        match decode_slot(r, table_size, budget) {
            Some(v) => v <= budget && gen_pow(v) == r,
            None => true,
        },
{
    lemma_find_log_found(r, 1, table_size + 1);
    lemma_find_log_found(r, table_size + 1, budget + 1);
    lemma_pow_mod_small_exponents(crate::generator::generator_value(), modulus());
}

fn sum_shares_at(decrypt_shares: &[TallyDecryptShare], j: usize) -> (r: GroupElement)
    requires
        forall|i: int| 0 <= i < decrypt_shares@.len() ==> j < (#[trigger] decrypt_shares@[i])@.len(),
    ensures
        r@ == ge_sum(
            Seq::new(
                share_values(decrypt_shares@).len(),
                |i: int| share_values(decrypt_shares@)[i][j as int],
            ),
        ),
{
    let ghost col = Seq::new(
        share_values(decrypt_shares@).len(),
        |i: int| share_values(decrypt_shares@)[i][j as int],
    );
    let mut acc = GroupElement::zero();
    let mut i: usize = 0;
    while i < decrypt_shares.len()
        invariant
            i <= decrypt_shares.len(),
            forall|k: int|
                0 <= k < decrypt_shares@.len() ==> j < (#[trigger] decrypt_shares@[k])@.len(),
            col == Seq::new(
                share_values(decrypt_shares@).len(),
                |k: int| share_values(decrypt_shares@)[k][j as int],
            ),
            acc@ == ge_sum(col.subrange(0, i as int)),
        decreases decrypt_shares.len() - i,
    {
        let e = decrypt_shares[i].element(j);
        proof {
            let next = col.subrange(0, i + 1);
            assert(next.drop_last() =~= col.subrange(0, i as int));
            assert(next.last() == e@);
        }
        acc = acc.add(&e);
        i = i + 1;
    }
    proof {
        assert(col.subrange(0, decrypt_shares.len() as int) =~= col);
    }
    acc
}

/// Decodes one opened slot: the number of votes that the element `r`
/// stands for within the budget `vote_left`, searched first in `table` and
/// then past it.
pub fn decode_opened_slot(r: &GroupElement, table: &Vec<GroupElement>, vote_left: u64) -> (found:
    Option<u64>)
    requires
        forall|i: int|
            0 <= i < table@.len() ==> (#[trigger] table@[i])@ == gen_pow((i + 1) as nat),
    ensures
        match found {
            Some(v) => decode_slot(r@, table@.len(), vote_left as nat) == Some(v as nat),
            None => decode_slot(r@, table@.len(), vote_left as nat) is None,
        },
{
    let zero = GroupElement::zero();
    if r.equals(&zero) {
        return Some(0);
    }
    let table_size = table.len();
    let mut ith: usize = 0;
    while ith < table_size
        invariant
            ith <= table_size,
            table_size == table@.len(),
            r@ != ge_zero(),
            forall|i: int|
                0 <= i < table@.len() ==> (#[trigger] table@[i])@ == gen_pow((i + 1) as nat),
            find_log(r@, 1, (table_size + 1) as nat) == find_log(
                r@,
                (ith + 1) as nat,
                (table_size + 1) as nat,
            ),
        decreases table_size - ith,
    {
        if table[ith].equals(r) {
            let k: u64 = ith as u64 + 1;
            if k <= vote_left {
                return Some(k);
            } else {
                return None;
            }
        }
        ith = ith + 1;
    }
    if table_size as u64 >= vote_left {
        return None;
    }
    let gen = GroupElement::generator();
    let last = if table_size > 0 {
        table[table_size - 1]
    } else {
        zero
    };
    proof {
        lemma_pow_mod_small_exponents(crate::generator::generator_value(), modulus());
        lemma_pow_mod_adds(crate::generator::generator_value(), table_size as nat, 1, modulus());
    }
    let mut e = last.add(&gen);
    let mut i: u64 = table_size as u64 + 1;
    loop
        invariant
            table_size < vote_left,
            table_size + 1 <= i <= vote_left,
            table_size == table@.len(),
            r@ != ge_zero(),
            find_log(r@, 1, (table_size + 1) as nat) is None,
            gen@ == gen_pow(1),
            e@ == gen_pow(i as nat),
            find_log(r@, (table_size + 1) as nat, (vote_left + 1) as nat) == find_log(
                r@,
                i as nat,
                (vote_left + 1) as nat,
            ),
        decreases vote_left - i,
    {
        if e.equals(r) {
            return Some(i);
        }
        if i >= vote_left {
            proof {
                assert(find_log(r@, (i + 1) as nat, (vote_left + 1) as nat) is None);
            }
            return None;
        }
        proof {
            lemma_pow_mod_adds(crate::generator::generator_value(), i as nat, 1, modulus());
        }
        e = e.add(&gen);
        i = i + 1;
    }
}

/// Recovers the totals from a closed tally and the committee's decryption
/// shares.
///
/// Slot by slot, the state's element less the sum of the shares' elements is
/// decoded to a number of votes. The budget starts at `max_votes` and every
/// total found is taken off it. A slot whose total is not found within the
/// budget gets `None`, and the next slot is tried.
pub fn result(
    max_votes: u64,
    table_size: usize,
    tally_state: &TallyState,
    decrypt_shares: &[TallyDecryptShare],
) -> (r: TallyResult)
    requires
        forall|i: int|
            0 <= i < decrypt_shares@.len() ==> tally_state@.len() <= (
            #[trigger] decrypt_shares@[i])@.len(),
    ensures
        r.votes@.len() == tally_state@.len(),
        forall|j: int|
            0 <= j < r.votes@.len() ==> count_value(#[trigger] r.votes@[j]) == decode_slots(
                opened_slots(tally_state@, share_values(decrypt_shares@)),
                table_size as nat,
                max_votes as nat,
            )[j],
        r.options.start == 0,
        r.options.end as nat == tally_state@.len() % 256,
{
    let options = tally_state.r2s.len();
    let ghost rs = opened_slots(tally_state@, share_values(decrypt_shares@));
    let table = GroupElement::table(table_size);
    let mut votes: Vec<Option<u64>> = Vec::new();
    let mut vote_left: u64 = max_votes;
    let mut j: usize = 0;
    while j < options
        invariant
            j <= options,
            options == tally_state@.len(),
            options == tally_state.r2s@.len(),
            rs == opened_slots(tally_state@, share_values(decrypt_shares@)),
            table@.len() == table_size,
            forall|i: int|
                0 <= i < table@.len() ==> (#[trigger] table@[i])@ == gen_pow((i + 1) as nat),
            forall|i: int|
                0 <= i < decrypt_shares@.len() ==> tally_state@.len() <= (
                #[trigger] decrypt_shares@[i])@.len(),
            votes@.len() == j,
            vote_left as nat == budget_before(rs, table_size as nat, max_votes as nat, j as nat),
            forall|k: int|
                0 <= k < j ==> count_value(#[trigger] votes@[k]) == decode_slots(
                    rs,
                    table_size as nat,
                    max_votes as nat,
                )[k],
        decreases options - j,
    {
        let r1 = sum_shares_at(decrypt_shares, j);
        let mut r = tally_state.r2s[j].sub(&r1);
        r.normalize();
        let found = decode_opened_slot(&r, &table, vote_left);
        proof {
            assert(r@ == rs[j as int]);
            lemma_decode_slot_within_budget(r@, table_size as nat, vote_left as nat);
        }
        match found {
            None => {
                votes.push(None);
            },
            Some(votes_found) => {
                vote_left = vote_left - votes_found;
                votes.push(Some(votes_found));
            },
        }
        j = j + 1;
    }
    TallyResult { votes, options: Range { start: 0, end: (options % 256) as u8 } }
}

/// The count that an entry of a result holds, as a mathematical integer.
pub open spec fn count_value(v: Option<u64>) -> Option<nat> {
    match v {
        Some(c) => Some(c as nat),
        None => None,
    }
}

} // verus!
