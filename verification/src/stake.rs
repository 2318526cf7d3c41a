//! The stake of accounts, as the ledger knows it at one date.

use crate::hash::Digest;
use vstd::prelude::*;

verus! {

/// Identifier of an account: its 32 bytes, of no stated kind.
#[derive(Clone, Copy, Debug, PartialEq, Eq, Hash, Structural)]
pub struct UnspecifiedAccountIdentifier(pub Digest);

impl View for UnspecifiedAccountIdentifier {
    type V = Seq<u8>;

    open spec fn view(&self) -> Seq<u8> {
        self.0@
    }
}

/// The stake of one account.
#[derive(Clone, Copy, Debug, PartialEq, Eq, Structural)]
pub struct StakeEntry {
    pub account: UnspecifiedAccountIdentifier,
    pub stake: u64,
}

/// The stake of every account at one date.
#[derive(Debug)]
pub struct StakeControl {
    entries: Vec<StakeEntry>,
}

impl View for StakeControl {
    type V = Seq<StakeEntry>;

    closed spec fn view(&self) -> Seq<StakeEntry> {
        self.entries@
    }
}

/// The stake of `account`: that of its first entry, or zero where it has
/// none.
pub open spec fn stake_of(entries: Seq<StakeEntry>, account: Seq<u8>) -> u64
    decreases entries.len(),
{
    if entries.len() == 0 {
        0
    } else if entries[0].account@ == account {
        entries[0].stake
    } else {
        stake_of(entries.drop_first(), account)
    }
}

/// The stake of all accounts together.
pub open spec fn total_stake(entries: Seq<StakeEntry>) -> nat
    decreases entries.len(),
{
    if entries.len() == 0 {
        0
    } else {
        total_stake(entries.drop_last()) + entries.last().stake as nat
    }
}

impl StakeControl {
    /// No account has stake.
    pub fn new() -> (r: StakeControl)
        ensures
            r@ == Seq::<StakeEntry>::empty(),
    {
        StakeControl { entries: Vec::new() }
    }

    /// The same stake with one more entry at the end.
    pub fn add_to(&self, account: UnspecifiedAccountIdentifier, stake: u64) -> (r: StakeControl)
        ensures
            r@ == self@.push(StakeEntry { account, stake }),
    {
        let mut entries = crate::hash::copy_vec(&self.entries);
        entries.push(StakeEntry { account, stake });
        StakeControl { entries }
    }

    /// The stake of the account.
    pub fn stake_for(&self, account: &UnspecifiedAccountIdentifier) -> (r: u64)
        ensures
            r == stake_of(self@, account@),
    {
        let mut i: usize = 0;
        proof {
            assert(self@.subrange(0, self@.len() as int) =~= self@);
        }
        while i < self.entries.len()
            invariant
                i <= self.entries.len(),
                stake_of(self@, account@) == stake_of(
                    self@.subrange(i as int, self@.len() as int),
                    account@,
                ),
            decreases self.entries.len() - i,
        {
            proof {
                let rest = self@.subrange(i as int, self@.len() as int);
                assert(rest[0] == self.entries@[i as int]);
                assert(rest.drop_first() =~= self@.subrange(i + 1, self@.len() as int));
            }
            let entry = self.entries[i];
            if entry.account.0.equals(&account.0) {
                return entry.stake;
            }
            i = i + 1;
        }
        proof {
            assert(self@.subrange(self@.len() as int, self@.len() as int) =~= Seq::<
                StakeEntry,
            >::empty());
        }
        0
    }

    /// The stake of all accounts together, capped at the largest amount.
    pub fn assigned(&self) -> (r: u64)
        ensures
            r == clamp_u64(total_stake(self@)),
    {
        let mut total: u64 = 0;
        let mut i: usize = 0;
        while i < self.entries.len()
            invariant
                i <= self.entries.len(),
                total == clamp_u64(total_stake(self@.subrange(0, i as int))),
            decreases self.entries.len() - i,
        {
            proof {
                let next = self@.subrange(0, i + 1);
                assert(next.drop_last() =~= self@.subrange(0, i as int));
            }
            let stake = self.entries[i].stake;
            total = if total <= u64::MAX - stake {
                total + stake
            } else {
                u64::MAX
            };
            i = i + 1;
        }
        proof {
            assert(self@.subrange(0, self@.len() as int) =~= self@);
        }
        total
    }
}

/// The amount `n`, capped at the largest amount of 64 bits.
pub open spec fn clamp_u64(n: nat) -> u64 {
    if n <= u64::MAX {
        n as u64
    } else {
        u64::MAX
    }
}

} // verus!
