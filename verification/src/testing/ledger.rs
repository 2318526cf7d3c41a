//! A ledger to try fragments on, and the stake pools to register on it.

use crate::certificate::payload::Certificate;
use crate::certificate::pool::{PoolPermissions, PoolRegistration, PoolRegistrationView, TaxType};
use crate::date::BlockDate;
use crate::fee::LinearFee;
use crate::fragment::Fragment;
use crate::hash::{copy_vec, Digest};
use crate::key::PublicKey;
use crate::ledger::accounts::AccountState;
use crate::ledger::governance::Ratio;
use crate::ledger::ledger::{accounts_after, fragment_error, pool_views, pools_after, Error, Ledger};
use crate::testing::data::Wallet;
use crate::value::Value;
use crate::vote::committee::CommitteeId;
use vstd::prelude::*;

verus! {

/// The settings of a chain.
#[derive(Clone, Copy, Debug, PartialEq, Eq, Structural)]
pub struct ConfigBuilder {
    pub linear_fee: LinearFee,
    pub seed: u64,
}

impl ConfigBuilder {
    /// The settings of a chain without fees.
    pub fn new() -> (r: ConfigBuilder)
        ensures
            r.linear_fee == (LinearFee { constant: 0, coefficient: 0, certificate: 0 }),
            r.seed == 0,
    {
        ConfigBuilder { linear_fee: LinearFee::new(0, 0, 0), seed: 0 }
    }

    /// The same settings with the given fee.
    pub fn with_fee(self, linear_fee: LinearFee) -> (r: ConfigBuilder)
        ensures
            r.linear_fee == linear_fee,
            r.seed == self.seed,
    {
        ConfigBuilder { linear_fee, seed: self.seed }
    }
}

/// Sets a ledger up.
#[derive(Debug)]
pub struct LedgerBuilder {
    config: ConfigBuilder,
    faucets: Vec<Wallet>,
    committee: Vec<CommitteeId>,
}

/// The accounts that the wallets stand for: one each, with the wallet's
/// value, that has not spent.
pub open spec fn faucet_accounts(wallets: Seq<Wallet>, accounts: Seq<AccountState>) -> bool {
    &&& accounts.len() == wallets.len()
    &&& forall|i: int|
        0 <= i < accounts.len() ==> (#[trigger] accounts[i]).id@ == wallets[i].key().public_bytes()
            && accounts[i].value == wallets[i].value_spec() && accounts[i].counter == 0
}

impl LedgerBuilder {
    /// Starts from the settings of a chain.
    pub fn from_config(config: ConfigBuilder) -> (r: LedgerBuilder)
        ensures
            r.settings() == config,
            r.wallets() == Seq::<Wallet>::empty(),
            r.committee() == Seq::<CommitteeId>::empty(),
    {
        LedgerBuilder { config, faucets: Vec::new(), committee: Vec::new() }
    }

    /// The settings.
    pub closed spec fn settings(&self) -> ConfigBuilder {
        self.config
    }

    /// The wallets that hold value from the start.
    pub closed spec fn wallets(&self) -> Seq<Wallet> {
        self.faucets@
    }

    /// The members of the committee.
    pub closed spec fn committee(&self) -> Seq<CommitteeId> {
        self.committee@
    }

    /// Adds wallets that hold value from the start.
    pub fn faucets_wallets(self, faucets: Vec<&Wallet>) -> (r: LedgerBuilder)
        ensures
            r.settings() == self.settings(),
            r.wallets() == self.wallets() + Seq::new(faucets@.len(), |i: int| *faucets@[i]),
            r.committee() == self.committee(),
    {
        let ghost added = Seq::new(faucets@.len(), |i: int| *faucets@[i]);
        let mut all = copy_vec(&self.faucets);
        let mut i: usize = 0;
        proof {
            assert(all@ =~= self.faucets@ + added.subrange(0, 0));
        }
        while i < faucets.len()
            invariant
                i <= faucets.len(),
                added == Seq::new(faucets@.len(), |i: int| *faucets@[i]),
                all@ == self.faucets@ + added.subrange(0, i as int),
            decreases faucets.len() - i,
        {
            all.push(*faucets[i]);
            proof {
                assert(all@ =~= self.faucets@ + added.subrange(0, i + 1));
            }
            i = i + 1;
        }
        proof {
            assert(added.subrange(0, faucets@.len() as int) =~= added);
        }
        LedgerBuilder { config: self.config, faucets: all, committee: self.committee }
    }

    /// Adds members of the committee.
    pub fn committee_members(self, members: Vec<CommitteeId>) -> (r: LedgerBuilder)
        ensures
            r.settings() == self.settings(),
            r.wallets() == self.wallets(),
            r.committee() == self.committee() + members@,
    {
        let mut all = copy_vec(&self.committee);
        let mut i: usize = 0;
        proof {
            assert(all@ =~= self.committee@ + members@.subrange(0, 0));
        }
        while i < members.len()
            invariant
                i <= members.len(),
                all@ == self.committee@ + members@.subrange(0, i as int),
            decreases members.len() - i,
        {
            all.push(members[i]);
            proof {
                assert(all@ =~= self.committee@ + members@.subrange(0, i + 1));
            }
            i = i + 1;
        }
        proof {
            assert(members@.subrange(0, members@.len() as int) =~= members@);
        }
        LedgerBuilder { config: self.config, faucets: self.faucets, committee: all }
    }

    /// The ledger of the chain at its first date: one account for each
    /// wallet, with the wallet's value.
    pub fn build(self) -> (r: Result<TestLedger, Error>)
        ensures
            r matches Ok(t) && t.ledger.fee == self.settings().linear_fee && t.ledger.date == (
            BlockDate { epoch: 0, slot_id: 0 }) && faucet_accounts(
                self.wallets(),
                t.ledger.accounts@,
            ) && t.ledger.pools@.len() == 0 && t.block0_hash == t.ledger.block0_hash
                && t.ledger.committee@ == self.committee(),
    {
        let mut accounts: Vec<AccountState> = Vec::new();
        let mut i: usize = 0;
        while i < self.faucets.len()
            invariant
                i <= self.faucets.len(),
                faucet_accounts(self.faucets@.subrange(0, i as int), accounts@),
            decreases self.faucets.len() - i,
        {
            let w = self.faucets[i];
            accounts.push(AccountState { id: w.identifier(), value: w.value(), counter: 0 });
            proof {
                let ws = self.faucets@.subrange(0, i + 1);
                assert forall|k: int| 0 <= k < accounts@.len() implies (#[trigger] accounts@[k]).id@
                    == ws[k].key().public_bytes() && accounts@[k].value == ws[k].value_spec()
                    && accounts@[k].counter == 0 by {
                    if k < i {
                        assert(ws[k] == self.faucets@.subrange(0, i as int)[k]);
                    }
                }
            }
            i = i + 1;
        }
        proof {
            assert(self.faucets@.subrange(0, self.faucets@.len() as int) =~= self.faucets@);
        }
        let mut seed: Vec<u8> = Vec::new();
        crate::codec::push_be_bytes(&mut seed, self.config.seed);
        crate::codec::push_be_bytes(&mut seed, self.config.linear_fee.constant);
        crate::codec::push_be_bytes(&mut seed, self.config.linear_fee.coefficient);
        crate::codec::push_be_bytes(&mut seed, self.config.linear_fee.certificate);
        let block0_hash = Digest::digest_byteslice(seed.as_slice());
        let ledger = Ledger::new(block0_hash, self.config.linear_fee, accounts, self.committee);
        Ok(TestLedger { ledger, block0_hash })
    }
}

/// A ledger to try fragments on.
pub struct TestLedger {
    pub ledger: Ledger,
    pub block0_hash: Digest,
}

impl TestLedger {
    /// The fee of the chain.
    pub fn fee(&self) -> (r: LinearFee)
        ensures
            r == self.ledger.fee,
    {
        self.ledger.fee
    }

    /// The date of the ledger.
    pub fn date(&self) -> (r: BlockDate)
        ensures
            r == self.ledger.date,
    {
        self.ledger.date
    }

    /// Applies a fragment at a date: the ledger moves on where the fragment
    /// is accepted, and stays as it is where it is refused.
    pub fn apply_fragment(&mut self, fragment: &Fragment, date: BlockDate) -> (r: Result<(), Error>)
        ensures
            final(self).block0_hash == old(self).block0_hash,
            r is Ok ==> fragment_error(old(self).ledger, *fragment, date) is None,
            r is Ok ==> final(self).ledger.accounts@ == accounts_after(
                old(self).ledger,
                fragment.tx(),
            ),
            r is Ok ==> pool_views(final(self).ledger.pools@) == pools_after(
                old(self).ledger,
                fragment.tx().payload@,
            ),
            r is Ok ==> final(self).ledger.date == date,
            r is Ok ==> final(self).ledger.fee == old(self).ledger.fee,
            r matches Err(e) ==> fragment_error(old(self).ledger, *fragment, date) == Some(e),
            r is Err ==> final(self).ledger == old(self).ledger,
    {
        match self.ledger.apply_fragment(fragment, date) {
            Ok(next) => {
                self.ledger = next;
                Ok(())
            },
            Err(e) => Err(e),
        }
    }
}

/// A stake pool.
#[derive(Debug)]
pub struct StakePool {
    info: PoolRegistration,
}

impl StakePool {
    /// The registration of the pool.
    pub fn info(&self) -> (r: PoolRegistration)
        ensures
            r@ == self.registration(),
    {
        self.info.duplicate()
    }

    /// The registration of the pool.
    pub closed spec fn registration(&self) -> PoolRegistrationView {
        self.info@
    }
}

/// Sets a stake pool up.
#[derive(Debug)]
pub struct StakePoolBuilder {
    owners: Vec<PublicKey>,
    operators: Vec<PublicKey>,
    pool_permissions: Option<PoolPermissions>,
    tax_type: TaxType,
}

/// A pool that is paid nothing.
pub open spec fn no_tax() -> TaxType {
    TaxType {
        fixed: Value(0),
        ratio: Ratio { numerator: 0, denominator: 1 },
        max_limit: None,
    }
}

impl StakePoolBuilder {
    /// A pool without owners or operators, that is paid nothing.
    pub fn new() -> (r: StakePoolBuilder)
        ensures
            r.pool() == (PoolRegistrationView {
                serial: 0,
                start_validity: 0,
                permissions: r.pool().permissions,
                owners: Seq::empty(),
                operators: Seq::empty(),
                rewards: no_tax(),
                reward_account: None,
            }),
            r.pool().permissions.threshold() == 0,
    {
        let r = StakePoolBuilder {
            owners: Vec::new(),
            operators: Vec::new(),
            pool_permissions: None,
            tax_type: TaxType {
                fixed: Value(0),
                ratio: Ratio { numerator: 0, denominator: 1 },
                max_limit: None,
            },
        };
        proof {
            PoolPermissions::lemma_of_threshold(0);
            assert(r.pool().owners =~= Seq::<PublicKey>::empty());
            assert(r.pool().operators =~= Seq::<PublicKey>::empty());
        }
        r
    }

    /// The registration that the builder stands for: where no permissions
    /// are set, the management threshold is the number of owners.
    pub closed spec fn pool(&self) -> PoolRegistrationView {
        PoolRegistrationView {
            serial: 0,
            start_validity: 0,
            permissions: match self.pool_permissions {
                Some(p) => p,
                None => PoolPermissions::of_threshold((self.owners@.len() % 64) as u8),
            },
            owners: self.owners@,
            operators: self.operators@,
            rewards: self.tax_type,
            reward_account: None,
        }
    }

    /// Sets the owners.
    pub fn with_owners(self, owners: Vec<PublicKey>) -> (r: StakePoolBuilder)
        ensures
            r.pool() == (PoolRegistrationView {
                owners: owners@,
                permissions: r.pool().permissions,
                ..self.pool()
            }),
    {
        StakePoolBuilder {
            owners,
            operators: self.operators,
            pool_permissions: self.pool_permissions,
            tax_type: self.tax_type,
        }
    }

    /// Sets the operators.
    pub fn with_operators(self, operators: Vec<PublicKey>) -> (r: StakePoolBuilder)
        ensures
            r.pool() == (PoolRegistrationView { operators: operators@, ..self.pool() }),
    {
        StakePoolBuilder {
            owners: self.owners,
            operators,
            pool_permissions: self.pool_permissions,
            tax_type: self.tax_type,
        }
    }

    /// Sets the permissions.
    pub fn with_pool_permissions(self, permissions: PoolPermissions) -> (r: StakePoolBuilder)
        ensures
            r.pool() == (PoolRegistrationView { permissions, ..self.pool() }),
    {
        StakePoolBuilder {
            owners: self.owners,
            operators: self.operators,
            pool_permissions: Some(permissions),
            tax_type: self.tax_type,
        }
    }

    /// The pool.
    pub fn build(self) -> (r: StakePool)
        ensures
            r.registration() == self.pool(),
    {
        let permissions = match self.pool_permissions {
            Some(p) => p,
            None => PoolPermissions::new((self.owners.len() % 64) as u8),
        };
        StakePool {
            info: PoolRegistration {
                serial: 0,
                start_validity: 0,
                permissions,
                owners: self.owners,
                operators: self.operators,
                rewards: self.tax_type,
                reward_account: None,
            },
        }
    }
}

/// The certificate that registers the pool.
pub fn build_stake_pool_registration_cert(stake_pool: &PoolRegistration) -> (r: Certificate)
    ensures
        r@ == crate::certificate::payload::CertificateView::PoolRegistration(stake_pool@),
{
    Certificate::PoolRegistration(stake_pool.duplicate())
}

} // verus!
