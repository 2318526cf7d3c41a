//! The certificates as one type, and their encoding: what the signatures of
//! a transaction cover.

use crate::certificate::pool::{
    OwnerStakeDelegation, PoolRegistration, PoolRegistrationView, PoolRetirement, PoolUpdate,
    StakeDelegation, TaxType,
};
use crate::certificate::vote_cast::{VoteCast, VoteCastView};
use crate::certificate::vote_plan::{vote_plan_bytes, VotePlan, VotePlanView};
use crate::certificate::vote_tally::{
    DecryptedPrivateTally, EncryptedVoteTally, MemberShares, MemberSharesView, VoteTally,
};
use crate::codec::{be_bytes, push_be_bytes};

use crate::hash::Digest;
use crate::key::PublicKey;
use crate::shvzk::proof_bytes;

use crate::tally::{ciphertexts_to_bytes, prefixed_bytes, tally_bytes, TallyDecryptShare};
use crate::vote::payload::{Payload, PayloadView};
use vstd::prelude::*;

verus! {

/// A certificate.
#[derive(Debug)]
pub enum Certificate {
    StakeDelegation(StakeDelegation),
    OwnerStakeDelegation(OwnerStakeDelegation),
    PoolRegistration(PoolRegistration),
    PoolRetirement(PoolRetirement),
    PoolUpdate(PoolUpdate),
    VotePlan(VotePlan),
    VoteCast(VoteCast),
    VoteTally(VoteTally),
    EncryptedVoteTally(EncryptedVoteTally),
}

/// Which certificate a certificate is.
#[derive(Clone, Copy, Debug, PartialEq, Eq, Structural)]
pub enum CertificateKind {
    StakeDelegation,
    OwnerStakeDelegation,
    PoolRegistration,
    PoolRetirement,
    PoolUpdate,
    VotePlan,
    VoteCast,
    VoteTally,
    EncryptedVoteTally,
}

/// Encoding of a sequence of public keys, one after the other.
pub open spec fn keys_bytes(keys: Seq<PublicKey>) -> Seq<u8>
    decreases keys.len(),
{
    if keys.len() == 0 {
        Seq::empty()
    } else {
        keys_bytes(keys.drop_last()) + keys.last()@
    }
}

/// Encoding of how a pool is paid.
pub open spec fn tax_bytes(t: TaxType) -> Seq<u8> {
    be_bytes(t.fixed.0) + be_bytes(t.ratio.numerator) + be_bytes(t.ratio.denominator) + (
    match t.max_limit {
        Some(m) => seq![1u8] + be_bytes(m),
        None => seq![0u8],
    })
}

/// Encoding of the registration of a pool.
pub open spec fn registration_bytes(r: PoolRegistrationView) -> Seq<u8> {
    be_bytes((r.serial / 0x1_0000_0000_0000_0000) as u64) + be_bytes(
        (r.serial % 0x1_0000_0000_0000_0000) as u64,
    ) + be_bytes(r.start_validity) + seq![r.permissions.threshold()] + be_bytes(
        r.owners.len() as u64,
    ) + keys_bytes(r.owners) + be_bytes(r.operators.len() as u64) + keys_bytes(r.operators)
        + tax_bytes(r.rewards) + (match r.reward_account {
        Some(a) => seq![1u8] + a@,
        None => seq![0u8],
    })
}

/// Encoding of the payload of a vote.
pub open spec fn payload_bytes(p: PayloadView) -> Seq<u8> {
    match p {
        PayloadView::Public { choice } => seq![1u8, choice],
        PayloadView::Private { encrypted_vote, proof } => seq![2u8] + be_bytes(
            encrypted_vote.len() as u64,
        ) + tally_bytes(encrypted_vote) + proof_bytes(proof),
    }
}

/// Encoding of a vote cast.
pub open spec fn vote_cast_bytes(c: VoteCastView) -> Seq<u8> {
    c.vote_plan@ + seq![c.proposal_index] + payload_bytes(c.payload)
}

/// Encoding of the shares of one member: for each proposal the share with
/// its length.
pub open spec fn shares_bytes(s: Seq<Seq<nat>>) -> Seq<u8>
    decreases s.len(),
{
    if s.len() == 0 {
        Seq::empty()
    } else {
        shares_bytes(s.drop_last()) + prefixed_bytes(s.last())
    }
}

/// Encoding of the shares of the members, one member after the other.
pub open spec fn members_bytes(m: Seq<MemberSharesView>) -> Seq<u8>
    decreases m.len(),
{
    if m.len() == 0 {
        Seq::empty()
    } else {
        members_bytes(m.drop_last()) + m.last().member + be_bytes(m.last().shares.len() as u64)
            + shares_bytes(m.last().shares)
    }
}

/// Encoding of a tally certificate.
pub open spec fn vote_tally_bytes(id: Digest, decrypted: Option<Seq<MemberSharesView>>) -> Seq<u8> {
    id@ + (match decrypted {
        None => seq![1u8],
        Some(m) => seq![2u8] + be_bytes(m.len() as u64) + members_bytes(m),
    })
}

fn push_digest(out: &mut Vec<u8>, d: &Digest)
    ensures
        final(out)@ == old(out)@ + d@,
{
    let mut bytes = d.to_bytes();
    out.append(&mut bytes);
}

fn push_keys(out: &mut Vec<u8>, keys: &Vec<PublicKey>)
    ensures
        final(out)@ == old(out)@ + keys_bytes(keys@),
{
    let ghost before = out@;
    let mut i: usize = 0;
    proof {
        assert(out@ =~= before + keys_bytes(keys@.subrange(0, 0)));
    }
    while i < keys.len()
        invariant
            i <= keys.len(),
            out@ == before + keys_bytes(keys@.subrange(0, i as int)),
        decreases keys.len() - i,
    {
        push_digest(out, &keys[i].0);
        proof {
            let next = keys@.subrange(0, i + 1);
            assert(next.drop_last() =~= keys@.subrange(0, i as int));
            assert(out@ =~= before + keys_bytes(next));
        }
        i = i + 1;
    }
    proof {
        assert(keys@.subrange(0, keys@.len() as int) =~= keys@);
    }
}

impl PoolRegistration {
    /// Appends the encoding of the registration.
    pub fn serialize_in(&self, out: &mut Vec<u8>)
        ensures
            final(out)@ == old(out)@ + registration_bytes(self@),
    {
        let ghost before = out@;
        push_be_bytes(out, (self.serial / 0x1_0000_0000_0000_0000u128) as u64);
        push_be_bytes(out, (self.serial % 0x1_0000_0000_0000_0000u128) as u64);
        push_be_bytes(out, self.start_validity);
        out.push(self.permissions.management_threshold());
        push_be_bytes(out, self.owners.len() as u64);
        push_keys(out, &self.owners);
        push_be_bytes(out, self.operators.len() as u64);
        push_keys(out, &self.operators);
        push_be_bytes(out, self.rewards.fixed.0);
        push_be_bytes(out, self.rewards.ratio.numerator);
        push_be_bytes(out, self.rewards.ratio.denominator);
        match self.rewards.max_limit {
            Some(m) => {
                out.push(1);
                push_be_bytes(out, m);
            },
            None => {
                out.push(0);
            },
        }
        match &self.reward_account {
            Some(a) => {
                out.push(1);
                push_digest(out, &a.0);
            },
            None => {
                out.push(0);
            },
        }
        proof {
            assert(out@ =~= before + registration_bytes(self@));
        }
    }
}

impl Payload {
    /// A copy of the payload.
    pub fn duplicate(&self) -> (r: Payload)
        ensures
            r@ == self@,
    {
        match self {
            Payload::Public { choice } => Payload::Public { choice: *choice },
            Payload::Private { encrypted_vote, proof } => Payload::Private {
                encrypted_vote: crate::hash::copy_vec(encrypted_vote),
                proof: proof.duplicate(),
            },
        }
    }

    /// Appends the encoding of the payload.
    pub fn serialize_in(&self, out: &mut Vec<u8>)
        ensures
            final(out)@ == old(out)@ + payload_bytes(self@),
    {
        let ghost before = out@;
        match self {
            Payload::Public { choice } => {
                out.push(1);
                out.push(choice.as_byte());
                proof {
                    assert(out@ =~= before + payload_bytes(self@));
                }
            },
            Payload::Private { encrypted_vote, proof } => {
                out.push(2);
                push_be_bytes(out, encrypted_vote.len() as u64);
                let mut cts = ciphertexts_to_bytes(encrypted_vote.as_slice());
                out.append(&mut cts);
                let mut p = proof.to_bytes();
                out.append(&mut p);
                proof {
                    assert(out@ =~= before + payload_bytes(self@));
                }
            },
        }
    }
}

impl VoteCast {
    /// A copy of the vote cast.
    pub fn duplicate(&self) -> (r: VoteCast)
        ensures
            r@ == self@,
    {
        VoteCast::new(*self.vote_plan(), self.proposal_index(), self.payload().duplicate())
    }

    /// Appends the encoding of the vote cast.
    pub fn serialize_in(&self, out: &mut Vec<u8>)
        ensures
            final(out)@ == old(out)@ + vote_cast_bytes(self@),
    {
        let ghost before = out@;
        push_digest(out, self.vote_plan());
        out.push(self.proposal_index());
        self.payload().serialize_in(out);
        proof {
            assert(out@ =~= before + vote_cast_bytes(self@));
        }
    }
}

impl MemberShares {
    /// A copy of the shares.
    pub fn duplicate(&self) -> (r: MemberShares)
        ensures
            r@ == self@,
    {
        let mut shares: Vec<TallyDecryptShare> = Vec::new();
        let mut i: usize = 0;
        while i < self.shares.len()
            invariant
                i <= self.shares.len(),
                shares@.len() == i,
                forall|k: int| 0 <= k < i ==> (#[trigger] shares@[k])@ == self.shares@[k]@,
            decreases self.shares.len() - i,
        {
            shares.push(self.shares[i].duplicate());
            i = i + 1;
        }
        let r = MemberShares { member: self.member, shares };
        proof {
            assert(r@.shares =~= self@.shares);
        }
        r
    }

    /// Appends the encoding of the shares.
    pub fn serialize_in(&self, out: &mut Vec<u8>)
        ensures
            final(out)@ == old(out)@ + self@.member + be_bytes(self@.shares.len() as u64)
                + shares_bytes(self@.shares),
    {
        let ghost before = out@;
        push_digest(out, &self.member.0);
        push_be_bytes(out, self.shares.len() as u64);
        let ghost head = out@;
        let ghost vals = self@.shares;
        let mut i: usize = 0;
        proof {
            assert(out@ =~= head + shares_bytes(vals.subrange(0, 0)));
        }
        while i < self.shares.len()
            invariant
                i <= self.shares.len(),
                vals == self@.shares,
                out@ == head + shares_bytes(vals.subrange(0, i as int)),
            decreases self.shares.len() - i,
        {
            let mut piece = self.shares[i].to_bytes();
            out.append(&mut piece);
            proof {
                let next = vals.subrange(0, i + 1);
                assert(next.drop_last() =~= vals.subrange(0, i as int));
                assert(next.last() == self.shares@[i as int]@);
                assert(out@ =~= head + shares_bytes(next));
            }
            i = i + 1;
        }
        proof {
            assert(vals.subrange(0, vals.len() as int) =~= vals);
            assert(out@ =~= before + self@.member + be_bytes(self@.shares.len() as u64)
                + shares_bytes(self@.shares));
        }
    }
}

impl DecryptedPrivateTally {
    /// A copy of the shares.
    pub fn duplicate(&self) -> (r: DecryptedPrivateTally)
        ensures
            r@ == self@,
    {
        let mut members: Vec<MemberShares> = Vec::new();
        let mut i: usize = 0;
        while i < self.members.len()
            invariant
                i <= self.members.len(),
                members@.len() == i,
                forall|k: int| 0 <= k < i ==> (#[trigger] members@[k])@ == self.members@[k]@,
            decreases self.members.len() - i,
        {
            members.push(self.members[i].duplicate());
            i = i + 1;
        }
        let r = DecryptedPrivateTally { members };
        proof {
            assert(r@ =~= self@);
        }
        r
    }

    /// Appends the encoding of the shares of all members.
    pub fn serialize_in(&self, out: &mut Vec<u8>)
        ensures
            final(out)@ == old(out)@ + members_bytes(self@),
    {
        let ghost before = out@;
        let ghost vals = self@;
        let mut i: usize = 0;
        proof {
            assert(out@ =~= before + members_bytes(vals.subrange(0, 0)));
        }
        while i < self.members.len()
            invariant
                i <= self.members.len(),
                vals == self@,
                out@ == before + members_bytes(vals.subrange(0, i as int)),
            decreases self.members.len() - i,
        {
            self.members[i].serialize_in(out);
            proof {
                let next = vals.subrange(0, i + 1);
                assert(next.drop_last() =~= vals.subrange(0, i as int));
                assert(next.last() == self.members@[i as int]@);
                assert(out@ =~= before + members_bytes(next));
            }
            i = i + 1;
        }
        proof {
            assert(vals.subrange(0, vals.len() as int) =~= vals);
        }
    }
}

impl VoteTally {
    /// A copy of the certificate.
    pub fn duplicate(&self) -> (r: VoteTally)
        ensures
            r.plan_id() == self.plan_id(),
            r.decrypted_spec() == self.decrypted_spec(),
            r.tally_type_spec() == self.tally_type_spec(),
    {
        match self.tally_decrypted() {
            None => VoteTally::new_public(*self.id()),
            Some(d) => VoteTally::new_private(*self.id(), d.duplicate()),
        }
    }

    /// Appends the encoding of the certificate.
    pub fn serialize_in(&self, out: &mut Vec<u8>)
        ensures
            final(out)@ == old(out)@ + vote_tally_bytes(self.plan_id(), self.decrypted_spec()),
    {
        let ghost before = out@;
        push_digest(out, self.id());
        match self.tally_decrypted() {
            None => {
                out.push(1);
            },
            Some(d) => {
                out.push(2);
                push_be_bytes(out, d.members.len() as u64);
                d.serialize_in(out);
            },
        }
        proof {
            assert(out@ =~= before + vote_tally_bytes(self.plan_id(), self.decrypted_spec()));
        }
    }
}

/// The abstract certificate.
pub enum CertificateView {
    StakeDelegation(StakeDelegation),
    OwnerStakeDelegation(OwnerStakeDelegation),
    PoolRegistration(PoolRegistrationView),
    PoolRetirement(PoolRetirement),
    PoolUpdate { pool_id: Digest, last_pool_reg_hash: Digest, new_pool_reg: PoolRegistrationView },
    VotePlan(VotePlanView),
    VoteCast(VoteCastView),
    VoteTally { id: Digest, decrypted: Option<Seq<MemberSharesView>> },
    EncryptedVoteTally(EncryptedVoteTally),
}

impl View for Certificate {
    type V = CertificateView;

    open spec fn view(&self) -> CertificateView {
        match self {
            Certificate::StakeDelegation(c) => CertificateView::StakeDelegation(*c),
            Certificate::OwnerStakeDelegation(c) => CertificateView::OwnerStakeDelegation(*c),
            Certificate::PoolRegistration(c) => CertificateView::PoolRegistration(c@),
            Certificate::PoolRetirement(c) => CertificateView::PoolRetirement(*c),
            Certificate::PoolUpdate(c) => CertificateView::PoolUpdate {
                pool_id: c.pool_id,
                last_pool_reg_hash: c.last_pool_reg_hash,
                new_pool_reg: c.new_pool_reg@,
            },
            Certificate::VotePlan(c) => CertificateView::VotePlan(c@),
            Certificate::VoteCast(c) => CertificateView::VoteCast(c@),
            Certificate::VoteTally(c) => CertificateView::VoteTally {
                id: c.plan_id(),
                decrypted: c.decrypted_spec(),
            },
            Certificate::EncryptedVoteTally(c) => CertificateView::EncryptedVoteTally(*c),
        }
    }
}

/// Which certificate a certificate is.
pub open spec fn kind_of(c: CertificateView) -> CertificateKind {
    match c {
        CertificateView::StakeDelegation(_) => CertificateKind::StakeDelegation,
        CertificateView::OwnerStakeDelegation(_) => CertificateKind::OwnerStakeDelegation,
        CertificateView::PoolRegistration(_) => CertificateKind::PoolRegistration,
        CertificateView::PoolRetirement(_) => CertificateKind::PoolRetirement,
        CertificateView::PoolUpdate { .. } => CertificateKind::PoolUpdate,
        CertificateView::VotePlan(_) => CertificateKind::VotePlan,
        CertificateView::VoteCast(_) => CertificateKind::VoteCast,
        CertificateView::VoteTally { .. } => CertificateKind::VoteTally,
        CertificateView::EncryptedVoteTally(_) => CertificateKind::EncryptedVoteTally,
    }
}

/// Encoding of a certificate, without its kind.
pub open spec fn certificate_bytes(c: CertificateView) -> Seq<u8> {
    match c {
        CertificateView::StakeDelegation(d) => d.account_id@ + d.pool_id@,
        CertificateView::OwnerStakeDelegation(d) => d.pool_id@,
        CertificateView::PoolRegistration(r) => registration_bytes(r),
        CertificateView::PoolRetirement(r) => r.pool_id@ + be_bytes(r.retirement_time),
        CertificateView::PoolUpdate { pool_id, last_pool_reg_hash, new_pool_reg } => pool_id@
            + last_pool_reg_hash@ + registration_bytes(new_pool_reg),
        CertificateView::VotePlan(p) => vote_plan_bytes(p),
        CertificateView::VoteCast(c) => vote_cast_bytes(c),
        CertificateView::VoteTally { id, decrypted } => vote_tally_bytes(id, decrypted),
        CertificateView::EncryptedVoteTally(t) => t.plan_id()@,
    }
}

impl Certificate {
    /// Which certificate this is.
    pub fn kind(&self) -> (r: CertificateKind)
        ensures
            r == kind_of(self@),
    {
        match self {
            Certificate::StakeDelegation(_) => CertificateKind::StakeDelegation,
            Certificate::OwnerStakeDelegation(_) => CertificateKind::OwnerStakeDelegation,
            Certificate::PoolRegistration(_) => CertificateKind::PoolRegistration,
            Certificate::PoolRetirement(_) => CertificateKind::PoolRetirement,
            Certificate::PoolUpdate(_) => CertificateKind::PoolUpdate,
            Certificate::VotePlan(_) => CertificateKind::VotePlan,
            Certificate::VoteCast(_) => CertificateKind::VoteCast,
            Certificate::VoteTally(_) => CertificateKind::VoteTally,
            Certificate::EncryptedVoteTally(_) => CertificateKind::EncryptedVoteTally,
        }
    }

    /// A copy of the certificate.
    pub fn duplicate(&self) -> (r: Certificate)
        ensures
            r@ == self@,
    {
        match self {
            Certificate::StakeDelegation(c) => Certificate::StakeDelegation(*c),
            Certificate::OwnerStakeDelegation(c) => Certificate::OwnerStakeDelegation(*c),
            Certificate::PoolRegistration(c) => Certificate::PoolRegistration(c.duplicate()),
            Certificate::PoolRetirement(c) => Certificate::PoolRetirement(*c),
            Certificate::PoolUpdate(c) => Certificate::PoolUpdate(
                PoolUpdate {
                    pool_id: c.pool_id,
                    last_pool_reg_hash: c.last_pool_reg_hash,
                    new_pool_reg: c.new_pool_reg.duplicate(),
                },
            ),
            Certificate::VotePlan(c) => Certificate::VotePlan(c.clone_plan()),
            Certificate::VoteCast(c) => Certificate::VoteCast(c.duplicate()),
            Certificate::VoteTally(c) => Certificate::VoteTally(c.duplicate()),
            Certificate::EncryptedVoteTally(c) => Certificate::EncryptedVoteTally(*c),
        }
    }

    /// The encoding of the certificate.
    pub fn serialize(&self) -> (out: Vec<u8>)
        ensures
            out@ == certificate_bytes(self@),
    {
        let mut out: Vec<u8> = Vec::new();
        match self {
            Certificate::StakeDelegation(c) => {
                push_digest(&mut out, &c.account_id.0);
                push_digest(&mut out, &c.pool_id);
                proof {
                    assert(out@ =~= certificate_bytes(self@));
                }
            },
            Certificate::OwnerStakeDelegation(c) => {
                push_digest(&mut out, &c.pool_id);
                proof {
                    assert(out@ =~= certificate_bytes(self@));
                }
            },
            Certificate::PoolRegistration(c) => {
                c.serialize_in(&mut out);
                proof {
                    assert(out@ =~= certificate_bytes(self@));
                }
            },
            Certificate::PoolRetirement(c) => {
                push_digest(&mut out, &c.pool_id);
                push_be_bytes(&mut out, c.retirement_time);
                proof {
                    assert(out@ =~= certificate_bytes(self@));
                }
            },
            Certificate::PoolUpdate(c) => {
                push_digest(&mut out, &c.pool_id);
                push_digest(&mut out, &c.last_pool_reg_hash);
                c.new_pool_reg.serialize_in(&mut out);
                proof {
                    assert(out@ =~= certificate_bytes(self@));
                }
            },
            Certificate::VotePlan(c) => {
                out = c.serialize();
            },
            Certificate::VoteCast(c) => {
                c.serialize_in(&mut out);
                proof {
                    assert(out@ =~= certificate_bytes(self@));
                }
            },
            Certificate::VoteTally(c) => {
                c.serialize_in(&mut out);
                proof {
                    assert(out@ =~= certificate_bytes(self@));
                }
            },
            Certificate::EncryptedVoteTally(c) => {
                push_digest(&mut out, c.id());
                proof {
                    assert(out@ =~= certificate_bytes(self@));
                }
            },
        }
        out
    }
}

} // verus!
