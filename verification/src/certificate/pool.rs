//! Certificates of stake pools.

use crate::hash::{copy_vec, Digest};
use crate::key::{PublicKey, Signature};
use crate::ledger::governance::Ratio;
use crate::stake::UnspecifiedAccountIdentifier;
use crate::value::Value;
use vstd::prelude::*;

verus! {

/// Identifier of a stake pool: the digest of its registration.
pub type PoolId = Digest;

/// The bits of the permissions that hold the management threshold.
pub const MANAGEMENT_THRESHOLD_BITMASK: u64 = 0x3f;

/// The permissions of a stake pool: how many owners have to sign a change.
#[derive(Clone, Copy, Debug, PartialEq, Eq, Hash, Structural)]
pub struct PoolPermissions(u64);

/// How a pool is paid for its work.
#[derive(Clone, Copy, Debug, PartialEq, Eq, Structural)]
pub struct TaxType {
    pub fixed: Value,
    pub ratio: Ratio,
    pub max_limit: Option<u64>,
}

impl PoolPermissions {
    /// The permissions with the given management threshold; only its lowest
    /// six bits count.
    pub fn new(management_threshold: u8) -> (r: PoolPermissions)
        ensures
            r.threshold() == management_threshold % 64,
            r == PoolPermissions::of_threshold(management_threshold % 64),
    {
        let v: u64 = (management_threshold as u64) & MANAGEMENT_THRESHOLD_BITMASK;
        proof {
            let m = management_threshold as u64;
            assert((m & 0x3f) == m % 64) by (bit_vector);
        }
        PoolPermissions(v)
    }

    /// The management threshold.
    pub closed spec fn threshold(self) -> u8 {
        (self.0 % 64) as u8
    }

    /// The permissions of a threshold below 64 have that threshold.
    pub proof fn lemma_of_threshold(t: u8)
        requires
            t < 64,
        ensures
            PoolPermissions::of_threshold(t).threshold() == t,
    {
    }

    /// The permissions with the given management threshold below 64.
    pub closed spec fn of_threshold(t: u8) -> PoolPermissions {
        PoolPermissions(t as u64)
    }

    /// The management threshold.
    pub fn management_threshold(&self) -> (r: u8)
        ensures
            r == self.threshold(),
    {
        let v: u64 = self.0 & MANAGEMENT_THRESHOLD_BITMASK;
        proof {
            let m = self.0;
            assert((m & 0x3f) == m % 64) by (bit_vector);
        }
        v as u8
    }
}

/// The registration of a stake pool.
#[derive(Debug)]
pub struct PoolRegistration {
    pub serial: u128,
    pub start_validity: u64,
    pub permissions: PoolPermissions,
    pub owners: Vec<PublicKey>,
    pub operators: Vec<PublicKey>,
    pub rewards: TaxType,
    pub reward_account: Option<UnspecifiedAccountIdentifier>,
}

/// The abstract registration.
pub struct PoolRegistrationView {
    pub serial: u128,
    pub start_validity: u64,
    pub permissions: PoolPermissions,
    pub owners: Seq<PublicKey>,
    pub operators: Seq<PublicKey>,
    pub rewards: TaxType,
    pub reward_account: Option<UnspecifiedAccountIdentifier>,
}

impl View for PoolRegistration {
    type V = PoolRegistrationView;

    open spec fn view(&self) -> PoolRegistrationView {
        PoolRegistrationView {
            serial: self.serial,
            start_validity: self.start_validity,
            permissions: self.permissions,
            owners: self.owners@,
            operators: self.operators@,
            rewards: self.rewards,
            reward_account: self.reward_account,
        }
    }
}

impl PoolRegistration {
    /// A copy of the registration.
    pub fn duplicate(&self) -> (r: PoolRegistration)
        ensures
            r@ == self@,
    {
        PoolRegistration {
            serial: self.serial,
            start_validity: self.start_validity,
            permissions: self.permissions,
            owners: copy_vec(&self.owners),
            operators: copy_vec(&self.operators),
            rewards: self.rewards,
            reward_account: self.reward_account,
        }
    }

    /// The management threshold of the pool.
    pub fn management_threshold(&self) -> (r: u8)
        ensures
            r == self@.permissions.threshold(),
    {
        self.permissions.management_threshold()
    }
}

/// The retirement of a stake pool.
#[derive(Clone, Copy, Debug, PartialEq, Eq, Structural)]
pub struct PoolRetirement {
    pub pool_id: PoolId,
    pub retirement_time: u64,
}

/// The change of the registration of a stake pool.
#[derive(Debug)]
pub struct PoolUpdate {
    pub pool_id: PoolId,
    pub last_pool_reg_hash: Digest,
    pub new_pool_reg: PoolRegistration,
}

/// The delegation of the stake of an account to a pool.
#[derive(Clone, Copy, Debug, PartialEq, Eq, Structural)]
pub struct StakeDelegation {
    pub account_id: UnspecifiedAccountIdentifier,
    pub pool_id: PoolId,
}

/// The delegation of the stake of the account that pays to a pool.
#[derive(Clone, Copy, Debug, PartialEq, Eq, Structural)]
pub struct OwnerStakeDelegation {
    pub pool_id: PoolId,
}

/// The signature of one owner of a pool, with the owner's index.
#[derive(Clone, Copy, Debug, PartialEq, Eq, Structural)]
pub struct OwnerSignature {
    pub index: u8,
    pub signature: Signature,
}

/// The signatures of owners of a pool.
#[derive(Debug)]
pub struct PoolOwnersSigned {
    pub signatures: Vec<OwnerSignature>,
}

/// Who authorizes a change of a pool.
#[derive(Debug)]
pub enum PoolSignature {
    /// The operator of the pool.
    Operator(Signature),
    /// Owners of the pool.
    Owners(PoolOwnersSigned),
}

} // verus!
