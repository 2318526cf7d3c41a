//! The ledger: accounts, stake pools and vote plans, and how a fragment
//! changes them. Every change gives a new ledger and leaves the old one as
//! it was.

use crate::certificate::payload::{kind_of, registration_bytes, Certificate, CertificateView};
use crate::certificate::pool::{
    OwnerSignature, PoolId, PoolOwnersSigned, PoolRegistration, PoolRegistrationView,
    PoolSignature,
};
use crate::certificate::vote_plan::{TreasuryGovernanceAction, ParametersGovernanceAction, VoteAction, VotePlanId};
use crate::certificate::vote_tally::tally_proof_signer;
use crate::date::BlockDate;
use crate::fee::{linear_fee, LinearFee};
use crate::fragment::Fragment;
use crate::hash::{blake2b_256, copy_vec, Digest};
use crate::key::{ed25519_valid, PublicKey, Signature};
use crate::ledger::accounts::{
    account_index, credit_all, credit_all_exec, debit_all, debit_all_exec, find_account,
    inputs_total, inputs_total_exec, outputs_total, outputs_total_exec, stake_entries,
    stake_of_accounts, AccountState,
};
use crate::ledger::check::{
    registration_error, signature_count_fits, valid_pool_registration_certificate,
    valid_pool_signature, RegistrationError,
};
use crate::ledger::governance::Governance;
use crate::stake::{clamp_u64, stake_of, total_stake};
use crate::transaction::{sign_data, witness_message, PayloadAuth, Transaction};
use crate::value::Value;
use crate::vote::committee::{committee_values, is_committee_member, CommitteeId};
use crate::vote::ledger::{
    add_plan_error, apply_vote_error, result_error, start_error, VotePlanLedger,
    VotePlanLedgerError,
};
use crate::vote::manager::ManagerView;
use vstd::prelude::*;

verus! {

/// Why a fragment is refused.
#[derive(Clone, Copy, Debug, PartialEq, Eq, Structural)]
pub enum Error {
    /// The fragment says it is of another kind than its certificate.
    FragmentPayloadMismatch,
    /// The management threshold of the pool is zero.
    PoolRegistrationManagementThresholdZero,
    /// The management threshold of the pool is above the number of owners.
    PoolRegistrationManagementThresholdAbove,
    /// The pool has too many owners.
    PoolRegistrationHasTooManyOwners,
    /// The pool has too many operators.
    PoolRegistrationHasTooManyOperators,
    /// The certificate is not authorized as its kind asks.
    CertificateInvalidSignature,
    /// The transaction has not one witness per input.
    NotEnoughSignatures { actual: usize, expected: usize },
    /// An input takes from an account that is not there.
    AccountNotFound,
    /// A witness is not the signature of its account.
    AccountInvalidSignature,
    /// The inputs are not the outputs and the fee together.
    NotBalanced { inputs: u128, outputs: u128 },
    /// An account holds too little, or has spent too often.
    NotEnoughFunds,
    /// The value of an account does not fit.
    ValueOverflow,
    /// The pool is registered already.
    PoolAlreadyExists,
    /// The pool is not registered.
    PoolNotFound,
    /// A vote is cast by a transaction with other than one input.
    VoteCastInvalidTransaction,
    /// The vote plan ledger refuses.
    VotePlan { source: VotePlanLedgerError },
}

/// A registered pool.
#[derive(Debug)]
pub struct PoolEntry {
    pub id: PoolId,
    pub registration: PoolRegistration,
}

/// The ledger.
pub struct Ledger {
    pub block0_hash: Digest,
    pub fee: LinearFee,
    pub date: BlockDate,
    pub accounts: Vec<AccountState>,
    pub pools: Vec<PoolEntry>,
    pub votes: VotePlanLedger,
    pub committee: Vec<CommitteeId>,
    pub governance: Governance,
    pub treasury: Value,
    pub rewards: Value,
}

/// The error that stands for a refused registration.
pub open spec fn registration_refused(e: RegistrationError) -> Error {
    match e {
        RegistrationError::ManagementThresholdZero => Error::PoolRegistrationManagementThresholdZero,
        RegistrationError::ManagementThresholdAbove =>
            Error::PoolRegistrationManagementThresholdAbove,
        RegistrationError::TooManyOwners => Error::PoolRegistrationHasTooManyOwners,
        RegistrationError::TooManyOperators => Error::PoolRegistrationHasTooManyOperators,
    }
}

/// Why a fragment is refused before the ledger is looked at, if it is: it
/// says it is of another kind than its certificate; a registration is
/// refused on its own; or a certificate of a pool is not signed for a pool,
/// or by a number of owners that is not acceptable.
pub open spec fn precheck_error(f: Fragment) -> Option<Error> {
    let tx = f.tx();
    if f.kind_spec() != kind_of(tx.payload@) {
        Some(Error::FragmentPayloadMismatch)
    } else {
        match tx.payload@ {
            CertificateView::PoolRegistration(r) => match registration_error(r) {
                Some(e) => Some(registration_refused(e)),
                None => pool_auth_error(tx.auth),
            },
            CertificateView::PoolRetirement(_) => pool_auth_error(tx.auth),
            CertificateView::PoolUpdate { .. } => pool_auth_error(tx.auth),
            _ => None,
        }
    }
}

/// Why what authorizes a certificate of a pool is refused on its own, if it
/// is.
pub open spec fn pool_auth_error(auth: PayloadAuth) -> Option<Error> {
    match auth {
        PayloadAuth::Pool(s) => if signature_count_fits(s) {
            None
        } else {
            Some(Error::CertificateInvalidSignature)
        },
        _ => Some(Error::CertificateInvalidSignature),
    }
}

/// Whether witness `i` of a transaction is the signature of the account of
/// input `i`, over the witness message with the account's counter.
pub open spec fn witness_holds(l: Ledger, tx: Transaction, i: int) -> bool {
    let idx = account_index(l.accounts@, tx.inputs@[i].account@);
    ed25519_valid(
        witness_message(
            l.block0_hash,
            blake2b_256(sign_data(tx.payload@, tx.valid_until, tx.inputs@, tx.outputs@)),
            l.accounts@[idx].counter,
        ),
        l.accounts@[idx].id@,
        tx.witnesses@[i].signature@,
    )
}

/// Why the witnesses from `from` on are refused, if one is: the first whose
/// account is not there, or that does not hold.
pub open spec fn witness_error(l: Ledger, tx: Transaction, from: int) -> Option<Error>
    decreases tx.inputs@.len() - from,
{
    if from >= tx.inputs@.len() {
        None
    } else if account_index(l.accounts@, tx.inputs@[from].account@) >= l.accounts@.len() {
        Some(Error::AccountNotFound)
    } else if !witness_holds(l, tx, from) {
        Some(Error::AccountInvalidSignature)
    } else {
        witness_error(l, tx, from + 1)
    }
}

/// The fee of a transaction: that of its numbers of inputs and outputs, as
/// far as they can be counted in a byte, with a certificate.
pub open spec fn transaction_fee(l: Ledger, tx: Transaction) -> u64 {
    linear_fee(
        l.fee,
        true,
        if tx.inputs@.len() <= 255 {
            tx.inputs@.len() as u8
        } else {
            255u8
        },
        if tx.outputs@.len() <= 255 {
            tx.outputs@.len() as u8
        } else {
            255u8
        },
    )
}

/// Why the transaction of a fragment is refused, if it is: in this order,
/// it has not one witness per input; a witness is refused; the inputs are
/// not the outputs and the fee together; the inputs cannot be taken; the
/// outputs cannot be given.
pub open spec fn transaction_error(l: Ledger, tx: Transaction) -> Option<Error> {
    if tx.witnesses@.len() != tx.inputs@.len() {
        Some(
            Error::NotEnoughSignatures {
                actual: tx.witnesses@.len() as usize,
                expected: tx.inputs@.len() as usize,
            },
        )
    } else if witness_error(l, tx, 0) is Some {
        witness_error(l, tx, 0)
    } else if inputs_total(tx.inputs@) != outputs_total(tx.outputs@) + transaction_fee(l, tx) {
        Some(
            Error::NotBalanced {
                inputs: inputs_total(tx.inputs@) as u128,
                outputs: (outputs_total(tx.outputs@) + transaction_fee(l, tx)) as u128,
            },
        )
    } else {
        match debit_all(l.accounts@, tx.inputs@) {
            None => Some(Error::NotEnoughFunds),
            Some(a) => match credit_all(a, tx.outputs@) {
                None => Some(Error::ValueOverflow),
                Some(_) => None,
            },
        }
    }
}

/// The accounts after a transaction that is not refused.
pub open spec fn accounts_after(l: Ledger, tx: Transaction) -> Seq<AccountState> {
    credit_all(debit_all(l.accounts@, tx.inputs@).unwrap(), tx.outputs@).unwrap()
}

/// Whether the signatures of owners authorize a change of the pool: there
/// are at least as many as the management threshold, each names an owner,
/// the owners come in rising order, and each signature is that of its owner
/// over `data`.
pub open spec fn owners_authorize(
    r: PoolRegistrationView,
    data: Seq<u8>,
    signatures: Seq<OwnerSignature>,
) -> bool {
    &&& signatures.len() >= r.permissions.threshold()
    &&& forall|i: int|
        0 <= i < signatures.len() ==> {
            &&& ((#[trigger] signatures[i]).index as int) < r.owners.len()
            &&& (i > 0 ==> signatures[i - 1].index < signatures[i].index)
            &&& ed25519_valid(data, r.owners[signatures[i].index as int]@, signatures[i].signature@)
        }
}

/// Whether a signature is that of one of the operators over `data`.
pub open spec fn operator_authorizes(r: PoolRegistrationView, data: Seq<u8>, s: Signature) -> bool {
    exists|j: int| 0 <= j < r.operators.len() && ed25519_valid(data, (#[trigger] r.operators[j])@, s@)
}

/// Whether a pool signature authorizes a change of the pool.
pub open spec fn pool_authorized(r: PoolRegistrationView, data: Seq<u8>, auth: PayloadAuth) -> bool {
    match auth {
        PayloadAuth::Pool(PoolSignature::Owners(o)) => owners_authorize(r, data, o.signatures@),
        PayloadAuth::Pool(PoolSignature::Operator(s)) => operator_authorizes(r, data, s),
        _ => false,
    }
}

/// The index of the first pool with the identifier, or the number of pools
/// where there is none.
pub open spec fn pool_index(pools: Seq<PoolEntry>, id: PoolId) -> int
    decreases pools.len(),
{
    if pools.len() == 0 {
        0
    } else if pools[0].id == id {
        0
    } else {
        1 + pool_index(pools.drop_first(), id)
    }
}

/// The index of a pool is at most the number of pools.
pub proof fn lemma_pool_index(pools: Seq<PoolEntry>, id: PoolId)
    ensures
        0 <= pool_index(pools, id) <= pools.len(),
        pool_index(pools, id) < pools.len() ==> pools[pool_index(pools, id)].id == id,
    decreases pools.len(),
{
    if pools.len() > 0 && pools[0].id != id {
        lemma_pool_index(pools.drop_first(), id);
    }
}

proof fn lemma_pool_index_is(pools: Seq<PoolEntry>, id: PoolId, i: int)
    requires
        0 <= i <= pools.len(),
        forall|k: int| 0 <= k < i ==> (#[trigger] pools[k]).id != id,
        i == pools.len() || pools[i].id == id,
    ensures
        pool_index(pools, id) == i,
    decreases pools.len(),
{
    if pools.len() > 0 && i > 0 {
        let rest = pools.drop_first();
        assert forall|k: int| 0 <= k < i - 1 implies (#[trigger] rest[k]).id != id by {
            assert(rest[k] == pools[k + 1]);
        }
        lemma_pool_index_is(rest, id, i - 1);
        assert(pools[0].id != id);
    }
}

/// The identifier of a registration: the digest of its encoding.
pub open spec fn pool_id_of(r: PoolRegistrationView) -> Seq<u8> {
    blake2b_256(registration_bytes(r))
}

fn find_pool(pools: &Vec<PoolEntry>, id: &PoolId) -> (r: Option<usize>)
    ensures
        match r {
            Some(i) => i == pool_index(pools@, *id) && i < pools@.len(),
            None => pool_index(pools@, *id) == pools@.len(),
        },
{
    let mut i: usize = 0;
    while i < pools.len()
        invariant
            i <= pools.len(),
            forall|k: int| 0 <= k < i ==> (#[trigger] pools@[k]).id != *id,
        decreases pools.len() - i,
    {
        if pools[i].id.equals(id) {
            proof {
                lemma_pool_index_is(pools@, *id, i as int);
            }
            return Some(i);
        }
        i = i + 1;
    }
    proof {
        lemma_pool_index_is(pools@, *id, pools@.len() as int);
    }
    None
}

fn owners_authorize_exec(reg: &PoolRegistration, data: &[u8], signed: &PoolOwnersSigned) -> (r: bool)
    ensures
        r == owners_authorize(reg@, data@, signed.signatures@),
{
    if signed.signatures.len() < reg.management_threshold() as usize {
        return false;
    }
    let mut i: usize = 0;
    while i < signed.signatures.len()
        invariant
            i <= signed.signatures.len(),
            signed.signatures@.len() >= reg@.permissions.threshold(),
            forall|k: int|
                0 <= k < i ==> {
                    &&& ((#[trigger] signed.signatures@[k]).index as int) < reg@.owners.len()
                    &&& (k > 0 ==> signed.signatures@[k - 1].index < signed.signatures@[k].index)
                    &&& ed25519_valid(
                        data@,
                        reg@.owners[signed.signatures@[k].index as int]@,
                        signed.signatures@[k].signature@,
                    )
                },
        decreases signed.signatures.len() - i,
    {
        let s = signed.signatures[i];
        let index = s.index as usize;
        if index >= reg.owners.len() {
            return false;
        }
        if i > 0 && signed.signatures[i - 1].index >= s.index {
            return false;
        }
        if !reg.owners[index].verify(data, &s.signature) {
            return false;
        }
        i = i + 1;
    }
    true
}

fn operator_authorizes_exec(reg: &PoolRegistration, data: &[u8], s: &Signature) -> (r: bool)
    ensures
        r == operator_authorizes(reg@, data@, *s),
{
    let mut j: usize = 0;
    while j < reg.operators.len()
        invariant
            j <= reg.operators.len(),
            forall|k: int|
                0 <= k < j ==> !ed25519_valid(data@, (#[trigger] reg@.operators[k])@, s@),
        decreases reg.operators.len() - j,
    {
        if reg.operators[j].verify(data, s) {
            proof {
                assert(ed25519_valid(data@, reg@.operators[j as int]@, s@));
            }
            return true;
        }
        j = j + 1;
    }
    false
}

fn pool_authorized_exec(reg: &PoolRegistration, data: &[u8], auth: &PayloadAuth) -> (r: bool)
    ensures
        r == pool_authorized(reg@, data@, *auth),
{
    match auth {
        PayloadAuth::Pool(PoolSignature::Owners(o)) => owners_authorize_exec(reg, data, o),
        PayloadAuth::Pool(PoolSignature::Operator(s)) => operator_authorizes_exec(reg, data, s),
        _ => false,
    }
}

fn copy_pools(pools: &Vec<PoolEntry>) -> (r: Vec<PoolEntry>)
    ensures
        r@.len() == pools@.len(),
        forall|k: int|
            0 <= k < r@.len() ==> (#[trigger] r@[k]).id == pools@[k].id && r@[k].registration@
                == pools@[k].registration@,
{
    let mut out: Vec<PoolEntry> = Vec::new();
    let mut i: usize = 0;
    while i < pools.len()
        invariant
            i <= pools.len(),
            out@.len() == i,
            forall|k: int|
                0 <= k < i ==> (#[trigger] out@[k]).id == pools@[k].id && out@[k].registration@
                    == pools@[k].registration@,
        decreases pools.len() - i,
    {
        out.push(PoolEntry { id: pools[i].id, registration: pools[i].registration.duplicate() });
        i = i + 1;
    }
    out
}

impl Ledger {
    /// The ledger of a chain at its first date, with the given accounts.
    pub fn new(
        block0_hash: Digest,
        fee: LinearFee,
        accounts: Vec<AccountState>,
        committee: Vec<CommitteeId>,
    ) -> (r: Ledger)
        ensures
            r.block0_hash == block0_hash,
            r.fee == fee,
            r.date == (BlockDate { epoch: 0, slot_id: 0 }),
            r.accounts@ == accounts@,
            r.pools@.len() == 0,
            r.votes@ == Map::<VotePlanId, ManagerView>::empty(),
            r.committee@ == committee@,
            r.treasury == Value(0),
            r.rewards == Value(0),
            r.governance.treasury.default_criteria()
                == crate::ledger::governance::default_criteria(),
            r.governance.parameters.default_criteria()
                == crate::ledger::governance::default_criteria(),
            r.governance.treasury.transfer_to_rewards_criteria() is None,
            r.governance.parameters.reward_add_criteria() is None,
    {
        Ledger {
            block0_hash,
            fee,
            date: BlockDate::first(),
            accounts,
            pools: Vec::new(),
            votes: VotePlanLedger::new(),
            committee,
            governance: Governance::new(),
            treasury: Value::zero(),
            rewards: Value::zero(),
        }
    }

    fn precheck(fragment: &Fragment) -> (r: Option<Error>)
        ensures
            r == precheck_error(*fragment),
    {
        let tx = fragment.transaction();
        if fragment.kind() != tx.payload.kind() {
            return Some(Error::FragmentPayloadMismatch);
        }
        match &tx.payload {
            Certificate::PoolRegistration(reg) => {
                match valid_pool_registration_certificate(reg) {
                    Err(e) => {
                        return Some(
                            match e {
                                RegistrationError::ManagementThresholdZero =>
                                    Error::PoolRegistrationManagementThresholdZero,
                                RegistrationError::ManagementThresholdAbove =>
                                    Error::PoolRegistrationManagementThresholdAbove,
                                RegistrationError::TooManyOwners =>
                                    Error::PoolRegistrationHasTooManyOwners,
                                RegistrationError::TooManyOperators =>
                                    Error::PoolRegistrationHasTooManyOperators,
                            },
                        );
                    },
                    Ok(_) => {},
                }
                Ledger::pool_auth_check(&tx.auth)
            },
            Certificate::PoolRetirement(_) => Ledger::pool_auth_check(&tx.auth),
            Certificate::PoolUpdate(_) => Ledger::pool_auth_check(&tx.auth),
            _ => None,
        }
    }

    fn pool_auth_check(auth: &PayloadAuth) -> (r: Option<Error>)
        ensures
            r == pool_auth_error(*auth),
    {
        match auth {
            PayloadAuth::Pool(s) => {
                if valid_pool_signature(s) {
                    None
                } else {
                    Some(Error::CertificateInvalidSignature)
                }
            },
            _ => Some(Error::CertificateInvalidSignature),
        }
    }

    fn witnesses_check(&self, tx: &Transaction) -> (r: Option<Error>)
        requires
            tx.witnesses@.len() == tx.inputs@.len(),
        ensures
            r == witness_error(*self, *tx, 0),
    {
        let hash = tx.sign_data_hash();
        let mut i: usize = 0;
        while i < tx.inputs.len()
            invariant
                i <= tx.inputs.len(),
                tx.witnesses@.len() == tx.inputs@.len(),
                hash@ == blake2b_256(
                    sign_data(tx.payload@, tx.valid_until, tx.inputs@, tx.outputs@),
                ),
                witness_error(*self, *tx, 0) == witness_error(*self, *tx, i as int),
            decreases tx.inputs.len() - i,
        {
            let idx = match find_account(&self.accounts, &tx.inputs[i].account) {
                None => {
                    return Some(Error::AccountNotFound);
                },
                Some(idx) => idx,
            };
            let account = self.accounts[idx];
            let mut message = self.block0_hash.to_bytes();
            let mut h = hash.to_bytes();
            message.append(&mut h);
            crate::codec::push_be_bytes(&mut message, account.counter as u64);
            proof {
                assert(message@ =~= witness_message(self.block0_hash, hash@, account.counter));
            }
            let key = PublicKey(account.id.0);
            if !key.verify(message.as_slice(), &tx.witnesses[i].signature) {
                return Some(Error::AccountInvalidSignature);
            }
            i = i + 1;
        }
        None
    }

    fn fee_of(&self, tx: &Transaction) -> (r: u64)
        ensures
            r == transaction_fee(*self, *tx),
    {
        let inputs: u8 = if tx.inputs.len() <= 255 {
            tx.inputs.len() as u8
        } else {
            255
        };
        let outputs: u8 = if tx.outputs.len() <= 255 {
            tx.outputs.len() as u8
        } else {
            255
        };
        self.fee.calculate(true, inputs, outputs).0
    }

    /// Applies the transaction of a fragment: the accounts after it, or why
    /// it is refused.
    pub fn apply_transaction(&self, tx: &Transaction) -> (r: Result<Vec<AccountState>, Error>)
        ensures
            match r {
                Ok(a) => transaction_error(*self, *tx) is None && a@ == accounts_after(*self, *tx),
                Err(e) => transaction_error(*self, *tx) == Some(e),
            },
    {
        if tx.witnesses.len() != tx.inputs.len() {
            return Err(
                Error::NotEnoughSignatures {
                    actual: tx.witnesses.len(),
                    expected: tx.inputs.len(),
                },
            );
        }
        match self.witnesses_check(tx) {
            Some(e) => {
                return Err(e);
            },
            None => {},
        }
        let total_in = inputs_total_exec(&tx.inputs);
        let total_out = outputs_total_exec(&tx.outputs);
        let fee = self.fee_of(tx);
        let count = tx.outputs.len();
        proof {
            assert(outputs_total(tx.outputs@) <= tx.outputs@.len() * u64::MAX) by {
                crate::ledger::ledger::lemma_outputs_total_bound(tx.outputs@);
            }
            assert(tx.outputs@.len() * u64::MAX <= u64::MAX * u64::MAX) by (nonlinear_arith)
                requires
                    tx.outputs@.len() <= u64::MAX,
            ;
        }
        if total_in != total_out + fee as u128 {
            return Err(Error::NotBalanced { inputs: total_in, outputs: total_out + fee as u128 });
        }
        let debited = match debit_all_exec(&self.accounts, &tx.inputs) {
            None => {
                return Err(Error::NotEnoughFunds);
            },
            Some(a) => a,
        };
        match credit_all_exec(&debited, &tx.outputs) {
            None => Err(Error::ValueOverflow),
            Some(a) => Ok(a),
        }
    }
}

/// The values of the outputs together are at most their number times the
/// largest amount.
pub proof fn lemma_outputs_total_bound(outputs: Seq<crate::transaction::OutputAddress>)
    ensures
        outputs_total(outputs) <= outputs.len() * u64::MAX,
    decreases outputs.len(),
{
    if outputs.len() > 0 {
        lemma_outputs_total_bound(outputs.drop_last());
        assert((outputs.len() - 1) * u64::MAX + u64::MAX == outputs.len() * u64::MAX)
            by (nonlinear_arith);
    }
}

/// The pools as their identifiers and abstract registrations.
pub open spec fn pool_views(pools: Seq<PoolEntry>) -> Seq<(PoolId, PoolRegistrationView)> {
    Seq::new(pools.len(), |i: int| (pools[i].id, pools[i].registration@))
}

/// Whether a committee member signed what authorizes a certificate.
pub open spec fn committee_signed(l: Ledger, data: Seq<u8>, id: CommitteeId, s: Signature) -> bool {
    committee_values(l.committee@).contains(id@) && ed25519_valid(data, id@, s@)
}

/// The digest that is the identifier of a registration.
pub open spec fn pool_digest(r: PoolRegistrationView) -> PoolId {
    choose|d: PoolId| d@ == pool_id_of(r)
}

/// Why the certificate of a transaction is refused by the ledger, if it is.
///
/// A delegation needs the signature of its account and a registered pool;
/// a delegation by the owner a registered pool. A registration needs to be
/// authorized by its own owners or operators, and a new pool; a retirement
/// or an update a registered pool, and to be authorized by its owners or
/// operators. A vote plan, a tally and the start of an encrypted tally need
/// the signature of a committee member, and a vote one input; then the
/// ledger of vote plans decides.
pub open spec fn certificate_error(l: Ledger, tx: Transaction, date: BlockDate) -> Option<Error> {
    let data = tx.auth_data();
    let total = clamp_u64(total_stake(stake_entries(l.accounts@)));
    match tx.payload@ {
        CertificateView::StakeDelegation(d) => if !(tx.auth matches PayloadAuth::Single(s)
            && ed25519_valid(data, d.account_id@, s@)) {
            Some(Error::CertificateInvalidSignature)
        } else if pool_index(l.pools@, d.pool_id) >= l.pools@.len() {
            Some(Error::PoolNotFound)
        } else {
            None
        },
        CertificateView::OwnerStakeDelegation(d) => if pool_index(l.pools@, d.pool_id)
            >= l.pools@.len() {
            Some(Error::PoolNotFound)
        } else {
            None
        },
        CertificateView::PoolRegistration(r) => if !pool_authorized(r, data, tx.auth) {
            Some(Error::CertificateInvalidSignature)
        } else if pool_index(l.pools@, pool_digest(r)) < l.pools@.len() {
            Some(Error::PoolAlreadyExists)
        } else {
            None
        },
        CertificateView::PoolRetirement(r) => if pool_index(l.pools@, r.pool_id) >= l.pools@.len() {
            Some(Error::PoolNotFound)
        } else if !pool_authorized(
            l.pools@[pool_index(l.pools@, r.pool_id)].registration@,
            data,
            tx.auth,
        ) {
            Some(Error::CertificateInvalidSignature)
        } else {
            None
        },
        CertificateView::PoolUpdate { pool_id, .. } => if pool_index(l.pools@, pool_id)
            >= l.pools@.len() {
            Some(Error::PoolNotFound)
        } else if !pool_authorized(
            l.pools@[pool_index(l.pools@, pool_id)].registration@,
            data,
            tx.auth,
        ) {
            Some(Error::CertificateInvalidSignature)
        } else {
            None
        },
        CertificateView::VotePlan(p) => if !(tx.auth matches PayloadAuth::VotePlan(proof)
            && committee_signed(l, data, proof.id, proof.signature)) {
            Some(Error::CertificateInvalidSignature)
        } else {
            match add_plan_error(l.votes@, date, p) {
                Some(source) => Some(Error::VotePlan { source }),
                None => None,
            }
        },
        CertificateView::VoteCast(c) => if tx.inputs@.len() != 1 {
            Some(Error::VoteCastInvalidTransaction)
        } else {
            match apply_vote_error(l.votes@, date, c) {
                Some(source) => Some(Error::VotePlan { source }),
                None => None,
            }
        },
        CertificateView::VoteTally { id, decrypted } => if !(tx.auth matches PayloadAuth::Tally(
            proof,
        ) && committee_signed(
            l,
            data,
            tally_proof_signer(proof),
            crate::ledger::ledger::tally_proof_signature(proof),
        )) {
            Some(Error::CertificateInvalidSignature)
        } else {
            match result_error(
                l.votes@,
                date,
                total,
                l.governance,
                id,
                decrypted,
                tx.auth->Tally_0,
            ) {
                Some(source) => Some(Error::VotePlan { source }),
                None => None,
            }
        },
        CertificateView::EncryptedVoteTally(t) => if !(tx.auth matches PayloadAuth::EncryptedTally(
            proof,
        ) && committee_signed(l, data, proof.id, proof.signature)) {
            Some(Error::CertificateInvalidSignature)
        } else {
            match start_error(l.votes@, date, t.plan_id(), tx.auth->EncryptedTally_0.id@) {
                Some(source) => Some(Error::VotePlan { source }),
                None => None,
            }
        },
    }
}

/// The signature of a tally proof.
pub open spec fn tally_proof_signature(p: crate::certificate::vote_tally::TallyProof) -> Signature {
    match p {
        crate::certificate::vote_tally::TallyProof::Public { signature, .. } => signature,
        crate::certificate::vote_tally::TallyProof::Private { signature, .. } => signature,
    }
}

/// Why a fragment is refused, if it is: it is refused before the ledger is
/// looked at, its transaction is refused, or its certificate is.
pub open spec fn fragment_error(l: Ledger, f: Fragment, date: BlockDate) -> Option<Error> {
    if precheck_error(f) is Some {
        precheck_error(f)
    } else if transaction_error(l, f.tx()) is Some {
        transaction_error(l, f.tx())
    } else {
        certificate_error(l, f.tx(), date)
    }
}

/// The pools after a certificate that is not refused: a registration adds
/// its pool at the end, a retirement takes its pool out, an update replaces
/// the registration of its pool; the others change nothing.
pub open spec fn pools_after(l: Ledger, c: CertificateView) -> Seq<(PoolId, PoolRegistrationView)> {
    let pools = pool_views(l.pools@);
    match c {
        CertificateView::PoolRegistration(r) => pools.push((pool_digest(r), r)),
        CertificateView::PoolRetirement(r) => pools.remove(pool_index(l.pools@, r.pool_id)),
        CertificateView::PoolUpdate { pool_id, new_pool_reg, .. } => pools.update(
            pool_index(l.pools@, pool_id),
            (pool_id, new_pool_reg),
        ),
        _ => pools,
    }
}

/// What a tally certificate makes of the manager of its plan, and the
/// actions it hands out; the manager as it is and no action where the
/// certificate is refused.
pub open spec fn tally_outcome(l: Ledger, tx: Transaction, date: BlockDate) -> (
    ManagerView,
    Seq<VoteAction>,
) {
    match (tx.payload@, tx.auth) {
        (CertificateView::VoteTally { id, decrypted }, PayloadAuth::Tally(proof)) =>
            match crate::vote::ledger::committee_result(
                l.votes@[id],
                date,
                clamp_u64(total_stake(stake_entries(l.accounts@))),
                l.governance,
                decrypted,
                proof,
            ) {
                Ok(outcome) => outcome,
                Err(_) => (l.votes@[id], Seq::empty()),
            },
        _ => (arbitrary(), Seq::empty()),
    }
}

/// The vote plans after a certificate that is not refused: a plan is added
/// with a fresh manager and the committee of the ledger; a vote is recorded
/// for the account of the input, with the account's value as its weight; the
/// start of an encrypted tally and a tally move the manager of their plan
/// on; the others change nothing.
pub open spec fn votes_after(l: Ledger, tx: Transaction, date: BlockDate) -> Map<
    VotePlanId,
    ManagerView,
> {
    let stake = stake_entries(l.accounts@);
    match tx.payload@ {
        CertificateView::VotePlan(p) => l.votes@.insert(
            crate::vote::ledger::plan_digest(p),
            crate::vote::manager::fresh_manager(
                p,
                crate::vote::ledger::plan_digest(p),
                committee_values(l.committee@),
            ),
        ),
        CertificateView::VoteCast(c) => l.votes@.insert(
            c.vote_plan,
            crate::vote::manager::manager_after_vote(
                l.votes@[c.vote_plan],
                tx.inputs@[0].account@,
                stake_of(stake, tx.inputs@[0].account@),
                c,
            ),
        ),
        CertificateView::VoteTally { id, .. } => l.votes@.insert(id, tally_outcome(l, tx, date).0),
        CertificateView::EncryptedVoteTally(t) => l.votes@.insert(
            t.plan_id(),
            crate::vote::manager::manager_after_start(
                l.votes@[t.plan_id()],
                clamp_u64(total_stake(stake)),
            ),
        ),
        _ => l.votes@,
    }
}

/// What the treasury and the rewards hold after an action: a transfer to
/// the rewards moves its value from the treasury as far as the treasury
/// holds it and the rewards can take it; an addition to the rewards adds its
/// value as far as the rewards can take it.
pub open spec fn funds_after_action(treasury: u64, rewards: u64, action: VoteAction) -> (u64, u64) {
    match action {
        VoteAction::Treasury { action: TreasuryGovernanceAction::TransferToRewards { value } } =>
            if value.0 <= treasury && rewards + value.0 <= u64::MAX {
                ((treasury - value.0) as u64, (rewards + value.0) as u64)
            } else {
                (treasury, rewards)
            },
        VoteAction::Parameters { action: ParametersGovernanceAction::RewardAdd { value } } =>
            if rewards + value.0 <= u64::MAX {
                (treasury, (rewards + value.0) as u64)
            } else {
                (treasury, rewards)
            },
        _ => (treasury, rewards),
    }
}

/// What the treasury and the rewards hold after the actions, one after the
/// other.
pub open spec fn funds_after(treasury: u64, rewards: u64, actions: Seq<VoteAction>) -> (u64, u64)
    decreases actions.len(),
{
    if actions.len() == 0 {
        (treasury, rewards)
    } else {
        let before = funds_after(treasury, rewards, actions.drop_last());
        funds_after_action(before.0, before.1, actions.last())
    }
}

fn apply_actions(treasury: Value, rewards: Value, actions: &Vec<VoteAction>) -> (r: (Value, Value))
    ensures
        (r.0.0, r.1.0) == funds_after(treasury.0, rewards.0, actions@),
{
    let mut t = treasury.0;
    let mut w = rewards.0;
    let mut i: usize = 0;
    proof {
        assert(actions@.subrange(0, 0) =~= Seq::<VoteAction>::empty());
    }
    while i < actions.len()
        invariant
            i <= actions.len(),
            (t, w) == funds_after(treasury.0, rewards.0, actions@.subrange(0, i as int)),
        decreases actions.len() - i,
    {
        proof {
            let next = actions@.subrange(0, i + 1);
            assert(next.drop_last() =~= actions@.subrange(0, i as int));
        }
        match actions[i] {
            VoteAction::Treasury { action: TreasuryGovernanceAction::TransferToRewards { value } } => {
                if value.0 <= t && w <= u64::MAX - value.0 {
                    t = t - value.0;
                    w = w + value.0;
                }
            },
            VoteAction::Parameters { action: ParametersGovernanceAction::RewardAdd { value } } => {
                if w <= u64::MAX - value.0 {
                    w = w + value.0;
                }
            },
            _ => {},
        }
        i = i + 1;
    }
    proof {
        assert(actions@.subrange(0, actions@.len() as int) =~= actions@);
    }
    (Value(t), Value(w))
}

/// What changes with a certificate: the pools, the vote plans, and what the
/// treasury and the rewards hold.
pub struct CertificateEffect {
    pub pools: Vec<PoolEntry>,
    pub votes: VotePlanLedger,
    pub treasury: Value,
    pub rewards: Value,
}

impl Ledger {
    fn committee_signed_exec(&self, data: &[u8], id: &CommitteeId, s: &Signature) -> (r: bool)
        ensures
            r == committee_signed(*self, data@, *id, *s),
    {
        is_committee_member(&self.committee, id) && PublicKey(id.0).verify(data, s)
    }

    fn unchanged(&self) -> (r: CertificateEffect)
        ensures
            pool_views(r.pools@) == pool_views(self.pools@),
            r.pools@.len() == self.pools@.len(),
            r.votes@ == self.votes@,
            crate::vote::ledger::ledger_fits(r.votes@),
            r.treasury == self.treasury,
            r.rewards == self.rewards,
    {
        self.votes.check_consistent();
        let pools = copy_pools(&self.pools);
        proof {
            assert(pool_views(pools@) =~= pool_views(self.pools@));
        }
        CertificateEffect {
            pools,
            votes: self.votes.share(),
            treasury: self.treasury,
            rewards: self.rewards,
        }
    }

    /// Applies the certificate of a transaction: what changes, or why the
    /// certificate is refused.
    pub fn apply_certificate(&self, tx: &Transaction, date: BlockDate) -> (r: Result<
        CertificateEffect,
        Error,
    >)
        ensures
            match r {
                Ok(e) => certificate_error(*self, *tx, date) is None && pool_views(e.pools@)
                    == pools_after(*self, tx.payload@) && crate::vote::ledger::ledger_fits(
                    e.votes@,
                ) && e.votes@ == votes_after(*self, *tx, date) && (e.treasury.0, e.rewards.0)
                    == funds_after(
                    self.treasury.0,
                    self.rewards.0,
                    tally_outcome(*self, *tx, date).1,
                ),
                Err(e) => certificate_error(*self, *tx, date) == Some(e),
            },
    {
        let data = tx.transaction_binding_auth_data();
        match &tx.payload {
            Certificate::StakeDelegation(d) => {
                let signed = match &tx.auth {
                    PayloadAuth::Single(s) => PublicKey(d.account_id.0).verify(data.as_slice(), s),
                    _ => false,
                };
                if !signed {
                    return Err(Error::CertificateInvalidSignature);
                }
                match find_pool(&self.pools, &d.pool_id) {
                    None => Err(Error::PoolNotFound),
                    Some(_) => {
                        let e = self.unchanged();
                        Ok(e)
                    },
                }
            },
            Certificate::OwnerStakeDelegation(d) => match find_pool(&self.pools, &d.pool_id) {
                None => Err(Error::PoolNotFound),
                Some(_) => {
                    let e = self.unchanged();
                    Ok(e)
                },
            },
            Certificate::PoolRegistration(reg) => {
                if !pool_authorized_exec(reg, data.as_slice(), &tx.auth) {
                    return Err(Error::CertificateInvalidSignature);
                }
                let mut bytes: Vec<u8> = Vec::new();
                reg.serialize_in(&mut bytes);
                proof {
                    assert(bytes@ =~= registration_bytes(reg@));
                }
                let id = Digest::digest_byteslice(bytes.as_slice());
                proof {
                    pool_digest(reg@).lemma_view_injective(id);
                }
                match find_pool(&self.pools, &id) {
                    Some(_) => Err(Error::PoolAlreadyExists),
                    None => {
                        let mut e = self.unchanged();
                        let ghost before = pool_views(e.pools@);
                        e.pools.push(PoolEntry { id, registration: reg.duplicate() });
                        proof {
                            assert(pool_views(e.pools@) =~= before.push((id, reg@)));
                        }
                        Ok(e)
                    },
                }
            },
            Certificate::PoolRetirement(ret) => match find_pool(&self.pools, &ret.pool_id) {
                None => Err(Error::PoolNotFound),
                Some(i) => {
                    if !pool_authorized_exec(
                        &self.pools[i].registration,
                        data.as_slice(),
                        &tx.auth,
                    ) {
                        return Err(Error::CertificateInvalidSignature);
                    }
                    let mut e = self.unchanged();
                    let ghost before = pool_views(e.pools@);
                    let _gone = e.pools.remove(i);
                    proof {
                        assert(pool_views(e.pools@) =~= before.remove(i as int));
                    }
                    Ok(e)
                },
            },
            Certificate::PoolUpdate(update) => match find_pool(&self.pools, &update.pool_id) {
                None => Err(Error::PoolNotFound),
                Some(i) => {
                    if !pool_authorized_exec(
                        &self.pools[i].registration,
                        data.as_slice(),
                        &tx.auth,
                    ) {
                        return Err(Error::CertificateInvalidSignature);
                    }
                    let mut e = self.unchanged();
                    let ghost before = pool_views(e.pools@);
                    e.pools.set(
                        i,
                        PoolEntry {
                            id: update.pool_id,
                            registration: update.new_pool_reg.duplicate(),
                        },
                    );
                    proof {
                        assert(pool_views(e.pools@) =~= before.update(
                            i as int,
                            (update.pool_id, update.new_pool_reg@),
                        ));
                    }
                    Ok(e)
                },
            },
            Certificate::VotePlan(plan) => {
                let signed = match &tx.auth {
                    PayloadAuth::VotePlan(proof) => self.committee_signed_exec(
                        data.as_slice(),
                        &proof.id,
                        &proof.signature,
                    ),
                    _ => false,
                };
                if !signed {
                    return Err(Error::CertificateInvalidSignature);
                }
                plan.check_well_formed();
                let copy = plan.clone_plan();
                match self.votes.add_vote_plan(date, copy, copy_vec(&self.committee)) {
                    Err(source) => Err(Error::VotePlan { source }),
                    Ok(votes) => {
                        let mut e = self.unchanged();
                        e.votes = votes;
                        Ok(e)
                    },
                }
            },
            Certificate::VoteCast(cast) => {
                if tx.inputs.len() != 1 {
                    return Err(Error::VoteCastInvalidTransaction);
                }
                let stake = stake_of_accounts(&self.accounts);
                match self.votes.apply_vote(date, tx.inputs[0].account, &stake, cast.duplicate()) {
                    Err(source) => Err(Error::VotePlan { source }),
                    Ok(votes) => {
                        let mut e = self.unchanged();
                        e.votes = votes;
                        Ok(e)
                    },
                }
            },
            Certificate::VoteTally(tally) => {
                let given = match &tx.auth {
                    PayloadAuth::Tally(p) => *p,
                    _ => {
                        return Err(Error::CertificateInvalidSignature);
                    },
                };
                let signature = match given {
                    crate::certificate::vote_tally::TallyProof::Public { signature, .. } => signature,
                    crate::certificate::vote_tally::TallyProof::Private { signature, .. } => signature,
                };
                if !self.committee_signed_exec(data.as_slice(), &given.committee_id(), &signature) {
                    return Err(Error::CertificateInvalidSignature);
                }
                let stake = stake_of_accounts(&self.accounts);
                match self.votes.apply_committee_result(
                    date,
                    &stake,
                    &self.governance,
                    tally,
                    given,
                ) {
                    Err(source) => Err(Error::VotePlan { source }),
                    Ok((votes, actions)) => {
                        let mut e = self.unchanged();
                        e.votes = votes;
                        let (treasury, rewards) = apply_actions(
                            self.treasury,
                            self.rewards,
                            &actions,
                        );
                        e.treasury = treasury;
                        e.rewards = rewards;
                        Ok(e)
                    },
                }
            },
            Certificate::EncryptedVoteTally(start) => {
                let given = match &tx.auth {
                    PayloadAuth::EncryptedTally(p) => *p,
                    _ => {
                        return Err(Error::CertificateInvalidSignature);
                    },
                };
                if !self.committee_signed_exec(data.as_slice(), &given.id, &given.signature) {
                    return Err(Error::CertificateInvalidSignature);
                }
                let stake = stake_of_accounts(&self.accounts);
                match self.votes.apply_encrypted_vote_tally(date, &stake, start, given.id) {
                    Err(source) => Err(Error::VotePlan { source }),
                    Ok(votes) => {
                        let mut e = self.unchanged();
                        e.votes = votes;
                        Ok(e)
                    },
                }
            },
        }
    }

    /// Applies a fragment at a date. The receiver stays as it is: the ledger
    /// after the fragment is returned, or why the fragment is refused.
    pub fn apply_fragment(&self, fragment: &Fragment, date: BlockDate) -> (r: Result<Ledger, Error>)
        ensures
            match r {
                Ok(next) => fragment_error(*self, *fragment, date) is None && next.block0_hash
                    == self.block0_hash && next.fee == self.fee && next.date == date
                    && next.accounts@ == accounts_after(*self, fragment.tx()) && pool_views(
                    next.pools@,
                ) == pools_after(*self, fragment.tx().payload@) && next.committee@
                    == self.committee@ && next.governance == self.governance && next.votes@
                    == votes_after(*self, fragment.tx(), date) && (next.treasury.0, next.rewards.0)
                    == funds_after(
                    self.treasury.0,
                    self.rewards.0,
                    tally_outcome(*self, fragment.tx(), date).1,
                ),
                Err(e) => fragment_error(*self, *fragment, date) == Some(e),
            },
    {
        match Ledger::precheck(fragment) {
            Some(e) => {
                return Err(e);
            },
            None => {},
        }
        let tx = fragment.transaction();
        let accounts = match self.apply_transaction(tx) {
            Err(e) => {
                return Err(e);
            },
            Ok(a) => a,
        };
        match self.apply_certificate(tx, date) {
            Err(e) => Err(e),
            Ok(effect) => Ok(
                Ledger {
                    block0_hash: self.block0_hash,
                    fee: self.fee,
                    date,
                    accounts,
                    pools: effect.pools,
                    votes: effect.votes,
                    committee: copy_vec(&self.committee),
                    governance: self.governance,
                    treasury: effect.treasury,
                    rewards: effect.rewards,
                },
            ),
        }
    }
}

} // verus!
