//! Fragments: what a block is made of.

use crate::certificate::payload::{kind_of, CertificateKind};
use crate::transaction::Transaction;
use vstd::prelude::*;

verus! {

/// A fragment: a transaction with its certificate.
#[derive(Debug)]
pub enum Fragment {
    StakeDelegation(Transaction),
    OwnerStakeDelegation(Transaction),
    PoolRegistration(Transaction),
    PoolRetirement(Transaction),
    PoolUpdate(Transaction),
    VotePlan(Transaction),
    VoteCast(Transaction),
    VoteTally(Transaction),
    EncryptedVoteTally(Transaction),
}

impl Fragment {
    /// The kind that the fragment says it is.
    pub open spec fn kind_spec(&self) -> CertificateKind {
        match self {
            Fragment::StakeDelegation(_) => CertificateKind::StakeDelegation,
            Fragment::OwnerStakeDelegation(_) => CertificateKind::OwnerStakeDelegation,
            Fragment::PoolRegistration(_) => CertificateKind::PoolRegistration,
            Fragment::PoolRetirement(_) => CertificateKind::PoolRetirement,
            Fragment::PoolUpdate(_) => CertificateKind::PoolUpdate,
            Fragment::VotePlan(_) => CertificateKind::VotePlan,
            Fragment::VoteCast(_) => CertificateKind::VoteCast,
            Fragment::VoteTally(_) => CertificateKind::VoteTally,
            Fragment::EncryptedVoteTally(_) => CertificateKind::EncryptedVoteTally,
        }
    }

    /// The transaction of the fragment.
    pub open spec fn tx(&self) -> Transaction {
        match self {
            Fragment::StakeDelegation(t) => *t,
            Fragment::OwnerStakeDelegation(t) => *t,
            Fragment::PoolRegistration(t) => *t,
            Fragment::PoolRetirement(t) => *t,
            Fragment::PoolUpdate(t) => *t,
            Fragment::VotePlan(t) => *t,
            Fragment::VoteCast(t) => *t,
            Fragment::VoteTally(t) => *t,
            Fragment::EncryptedVoteTally(t) => *t,
        }
    }

    /// The transaction of the fragment.
    pub fn transaction(&self) -> (r: &Transaction)
        ensures
            *r == self.tx(),
    {
        match self {
            Fragment::StakeDelegation(t) => t,
            Fragment::OwnerStakeDelegation(t) => t,
            Fragment::PoolRegistration(t) => t,
            Fragment::PoolRetirement(t) => t,
            Fragment::PoolUpdate(t) => t,
            Fragment::VotePlan(t) => t,
            Fragment::VoteCast(t) => t,
            Fragment::VoteTally(t) => t,
            Fragment::EncryptedVoteTally(t) => t,
        }
    }

    /// The kind that the fragment says it is.
    pub fn kind(&self) -> (r: CertificateKind)
        ensures
            r == self.kind_spec(),
    {
        match self {
            Fragment::StakeDelegation(_) => CertificateKind::StakeDelegation,
            Fragment::OwnerStakeDelegation(_) => CertificateKind::OwnerStakeDelegation,
            Fragment::PoolRegistration(_) => CertificateKind::PoolRegistration,
            Fragment::PoolRetirement(_) => CertificateKind::PoolRetirement,
            Fragment::PoolUpdate(_) => CertificateKind::PoolUpdate,
            Fragment::VotePlan(_) => CertificateKind::VotePlan,
            Fragment::VoteCast(_) => CertificateKind::VoteCast,
            Fragment::VoteTally(_) => CertificateKind::VoteTally,
            Fragment::EncryptedVoteTally(_) => CertificateKind::EncryptedVoteTally,
        }
    }

    /// The fragment of the kind of the transaction's certificate.
    pub fn from_transaction(tx: Transaction) -> (r: Fragment)
        ensures
            r.tx() == tx,
            r.kind_spec() == kind_of(tx.payload@),
    {
        match tx.payload.kind() {
            CertificateKind::StakeDelegation => Fragment::StakeDelegation(tx),
            CertificateKind::OwnerStakeDelegation => Fragment::OwnerStakeDelegation(tx),
            CertificateKind::PoolRegistration => Fragment::PoolRegistration(tx),
            CertificateKind::PoolRetirement => Fragment::PoolRetirement(tx),
            CertificateKind::PoolUpdate => Fragment::PoolUpdate(tx),
            CertificateKind::VotePlan => Fragment::VotePlan(tx),
            CertificateKind::VoteCast => Fragment::VoteCast(tx),
            CertificateKind::VoteTally => Fragment::VoteTally(tx),
            CertificateKind::EncryptedVoteTally => Fragment::EncryptedVoteTally(tx),
        }
    }
}

} // verus!
