//! The certificates of the committee: the start of an encrypted tally, and
//! the tally itself.

use crate::certificate::vote_plan::VotePlanId;
use crate::key::Signature;
use crate::tally::TallyDecryptShare;
use crate::vote::committee::CommitteeId;
use crate::vote::payload::PayloadType;
use vstd::prelude::*;

verus! {

/// The decryption shares of one committee member: one share per proposal
/// of the plan.
#[derive(Debug)]
pub struct MemberShares {
    pub member: CommitteeId,
    pub shares: Vec<TallyDecryptShare>,
}

/// The abstract shares of a member: who, and for each proposal the share's
/// elements.
pub struct MemberSharesView {
    pub member: Seq<u8>,
    pub shares: Seq<Seq<nat>>,
}

impl View for MemberShares {
    type V = MemberSharesView;

    open spec fn view(&self) -> MemberSharesView {
        MemberSharesView {
            member: self.member@,
            shares: self.shares@.map_values(|s: TallyDecryptShare| s@),
        }
    }
}

/// What opens the encrypted tallies of a plan: the shares of the committee
/// members.
#[derive(Debug)]
pub struct DecryptedPrivateTally {
    pub members: Vec<MemberShares>,
}

impl View for DecryptedPrivateTally {
    type V = Seq<MemberSharesView>;

    open spec fn view(&self) -> Seq<MemberSharesView> {
        self.members@.map_values(|m: MemberShares| m@)
    }
}

/// What a tally certificate carries.
#[derive(Debug)]
pub enum VoteTallyPayload {
    Public,
    Private { inner: DecryptedPrivateTally },
}

/// The certificate that tallies a vote plan.
#[derive(Debug)]
pub struct VoteTally {
    id: VotePlanId,
    payload: VoteTallyPayload,
}

/// The certificate that starts the encrypted tally of a vote plan.
#[derive(Clone, Copy, Debug, PartialEq, Eq, Structural)]
pub struct EncryptedVoteTally {
    id: VotePlanId,
}

/// Who signed a tally certificate, and how the plan is cast.
#[derive(Clone, Copy, Debug, PartialEq, Eq, Structural)]
pub enum TallyProof {
    Public { id: CommitteeId, signature: Signature },
    Private { id: CommitteeId, signature: Signature },
}

/// Who signed the start of an encrypted tally.
#[derive(Clone, Copy, Debug, PartialEq, Eq, Structural)]
pub struct EncryptedVoteTallyProof {
    pub id: CommitteeId,
    pub signature: Signature,
}

/// Who signed a vote plan.
#[derive(Clone, Copy, Debug, PartialEq, Eq, Structural)]
pub struct VotePlanProof {
    pub id: CommitteeId,
    pub signature: Signature,
}

impl VoteTally {
    /// The tally certificate of a plan voted in the open.
    pub fn new_public(id: VotePlanId) -> (r: VoteTally)
        ensures
            r.plan_id() == id,
            r.tally_type_spec() == PayloadType::Public,
            r.decrypted_spec() is None,
    {
        VoteTally { id, payload: VoteTallyPayload::Public }
    }

    /// The tally certificate of a plan voted encrypted, with the shares that
    /// open it.
    pub fn new_private(id: VotePlanId, decrypted_tally: DecryptedPrivateTally) -> (r: VoteTally)
        ensures
            r.plan_id() == id,
            r.tally_type_spec() == PayloadType::Private,
            r.decrypted_spec() == Some(decrypted_tally@),
    {
        VoteTally { id, payload: VoteTallyPayload::Private { inner: decrypted_tally } }
    }

    /// The identifier of the plan tallied.
    pub closed spec fn plan_id(&self) -> VotePlanId {
        self.id
    }

    /// How the plan tallied is cast.
    pub closed spec fn tally_type_spec(&self) -> PayloadType {
        match self.payload {
            VoteTallyPayload::Public => PayloadType::Public,
            VoteTallyPayload::Private { .. } => PayloadType::Private,
        }
    }

    /// The shares that open the tally, where the plan is voted encrypted.
    pub closed spec fn decrypted_spec(&self) -> Option<Seq<MemberSharesView>> {
        match self.payload {
            VoteTallyPayload::Public => None,
            VoteTallyPayload::Private { inner } => Some(inner@),
        }
    }

    /// A tally is of a plan voted encrypted where it carries shares, and
    /// only there.
    pub proof fn lemma_tally_type(&self)
        ensures
            self.tally_type_spec() == PayloadType::Private <==> self.decrypted_spec() is Some,
            self.tally_type_spec() == PayloadType::Public <==> self.decrypted_spec() is None,
    {
    }

    /// The identifier of the plan tallied.
    pub fn id(&self) -> (r: &VotePlanId)
        ensures
            *r == self.plan_id(),
    {
        &self.id
    }

    /// How the plan tallied is cast.
    pub fn tally_type(&self) -> (r: PayloadType)
        ensures
            r == self.tally_type_spec(),
    {
        match &self.payload {
            VoteTallyPayload::Public => PayloadType::Public,
            VoteTallyPayload::Private { .. } => PayloadType::Private,
        }
    }

    /// The shares that open the tally, where the plan is voted encrypted.
    pub fn tally_decrypted(&self) -> (r: Option<&DecryptedPrivateTally>)
        ensures
            match r {
                Some(d) => self.decrypted_spec() == Some(d@) && self.tally_type_spec()
                    == PayloadType::Private,
                None => self.decrypted_spec() is None && self.tally_type_spec()
                    == PayloadType::Public,
            },
    {
        match &self.payload {
            VoteTallyPayload::Public => None,
            VoteTallyPayload::Private { inner } => Some(inner),
        }
    }
}

impl EncryptedVoteTally {
    /// The certificate that starts the encrypted tally of the plan `id`.
    pub fn new(id: VotePlanId) -> (r: EncryptedVoteTally)
        ensures
            r.plan_id() == id,
    {
        EncryptedVoteTally { id }
    }

    /// The identifier of the plan.
    pub closed spec fn plan_id(&self) -> VotePlanId {
        self.id
    }

    /// The identifier of the plan.
    pub fn id(&self) -> (r: &VotePlanId)
        ensures
            *r == self.plan_id(),
    {
        &self.id
    }
}

impl TallyProof {
    /// The committee member that signed.
    pub fn committee_id(&self) -> (r: CommitteeId)
        ensures
            r == tally_proof_signer(*self),
    {
        match self {
            TallyProof::Public { id, .. } => *id,
            TallyProof::Private { id, .. } => *id,
        }
    }
}

/// The committee member that signed a tally.
pub open spec fn tally_proof_signer(p: TallyProof) -> CommitteeId {
    match p {
        TallyProof::Public { id, .. } => id,
        TallyProof::Private { id, .. } => id,
    }
}

} // verus!
