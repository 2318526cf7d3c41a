//! Wallets and committees to try the ledger with.

use crate::committee::{
    Crs, ElectionPublicKey, MemberCommunicationKey, MemberCommunicationPublicKey,
    MemberPublicKey, MemberState,
};
use crate::hash::Digest;
use crate::key::{public_of, EitherEd25519SecretKey, PublicKey};
use crate::rng::thread_random_bytes;
use crate::stake::UnspecifiedAccountIdentifier;
use crate::transaction::{Input, OutputAddress};
use crate::value::Value;
use rand_chacha::ChaCha20Rng;
use vstd::prelude::*;

verus! {

/// Makes values to try the ledger with.
pub struct TestGen;

impl TestGen {
    /// Thirty-two bytes of the thread's generator, as an identifier.
    pub fn bytes() -> (r: Digest)
        ensures
            r@.len() == 32,
    {
        let bytes = thread_random_bytes();
        let r = match Digest::from_bytes(bytes.as_slice()) {
            Some(d) => d,
            None => vstd::pervasive::unreached(),
        };
        proof {
            r.lemma_len();
        }
        r
    }

    /// A signing key drawn from the thread's generator.
    pub fn secret_key() -> (r: EitherEd25519SecretKey)
        ensures
            r.public_bytes() == public_of(r.seed_bytes()),
    {
        EitherEd25519SecretKey::from_seed(TestGen::bytes())
    }

    /// The public key of a signing key drawn from the thread's generator.
    pub fn public_key() -> (r: PublicKey)
        ensures
            r@.len() == 32,
    {
        let r = TestGen::secret_key().to_public();
        proof {
            r.0.lemma_len();
        }
        r
    }
}

/// The key and the counter of an account.
#[derive(Clone, Copy, Debug, PartialEq, Eq, Structural)]
pub struct AccountData {
    pub secret_key: EitherEd25519SecretKey,
    pub spending_counter: u32,
}

/// An account with its key and its value.
#[derive(Clone, Copy, Debug, PartialEq, Eq, Structural)]
pub struct Wallet {
    account: AccountData,
    value: Value,
}

impl Wallet {
    /// A wallet of the given value, with a key drawn from the thread's
    /// generator.
    pub fn from_value(value: Value) -> (r: Wallet)
        ensures
            r.value_spec() == value,
            r.spending_counter() == 0,
    {
        Wallet {
            account: AccountData { secret_key: TestGen::secret_key(), spending_counter: 0 },
            value,
        }
    }

    /// A wallet of the given value with the given key.
    pub fn from_key(secret_key: EitherEd25519SecretKey, value: Value) -> (r: Wallet)
        ensures
            r.value_spec() == value,
            r.spending_counter() == 0,
            r.key() == secret_key,
    {
        Wallet { account: AccountData { secret_key, spending_counter: 0 }, value }
    }

    /// The value of the wallet.
    pub closed spec fn value_spec(&self) -> Value {
        self.value
    }

    /// The signing key of the wallet.
    pub closed spec fn key(&self) -> EitherEd25519SecretKey {
        self.account.secret_key
    }

    /// How often the account has spent.
    pub closed spec fn spending_counter(&self) -> u32 {
        self.account.spending_counter
    }

    /// Counts one more transaction of the account as accepted: the next
    /// witness is made for the next counter.
    pub fn confirm_transaction(&mut self)
        requires
            old(self).spending_counter() < u32::MAX,
        ensures
            final(self).spending_counter() == old(self).spending_counter() + 1,
            final(self).key() == old(self).key(),
            final(self).value_spec() == old(self).value_spec(),
    {
        self.account = AccountData {
            secret_key: self.account.secret_key,
            spending_counter: self.account.spending_counter + 1,
        };
    }

    /// The value of the wallet.
    pub fn value(&self) -> (r: Value)
        ensures
            r == self.value_spec(),
    {
        self.value
    }

    /// The public key of the wallet.
    pub fn public_key(&self) -> (r: PublicKey)
        ensures
            r@ == self.key().public_bytes(),
    {
        self.account.secret_key.to_public()
    }

    /// The signing key of the wallet.
    pub fn private_key(&self) -> (r: EitherEd25519SecretKey)
        ensures
            r == self.key(),
    {
        self.account.secret_key
    }

    /// The identifier of the account.
    pub fn identifier(&self) -> (r: UnspecifiedAccountIdentifier)
        ensures
            r@ == self.key().public_bytes(),
    {
        UnspecifiedAccountIdentifier(self.account.secret_key.to_public().0)
    }

    /// The key and the counter of the account.
    pub fn as_account_data(&self) -> (r: AccountData)
        ensures
            r.secret_key == self.key(),
            r.spending_counter == self.spending_counter(),
    {
        self.account
    }

    /// An input that takes `value` from the account.
    pub fn make_input_with_value(&self, value: Value) -> (r: Input)
        ensures
            r.account@ == self.key().public_bytes(),
            r.value == value,
    {
        Input { account: self.identifier(), value }
    }

    /// An output that gives `value` to the account.
    pub fn make_output_with_value(&self, value: Value) -> (r: OutputAddress)
        ensures
            r.address@ == self.key().public_bytes(),
            r.value == value,
    {
        OutputAddress { address: self.identifier(), value }
    }
}

/// A member of a committee, with its state after the key set-up.
#[derive(Debug)]
pub struct CommitteeMember {
    state: MemberState,
}

impl CommitteeMember {
    /// The public share of the member.
    pub fn public_key(&self) -> (r: MemberPublicKey)
        ensures
            r@ == crate::generator::gen_pow(self.secret()),
    {
        self.state.public_key()
    }

    /// The secret share of the member.
    pub closed spec fn secret(&self) -> nat {
        self.state@.secret
    }

    /// The secret share of the member.
    pub fn secret_key(&self) -> (r: &crate::committee::MemberSecretKey)
        ensures
            r@ == self.secret(),
    {
        self.state.secret_key()
    }
}

/// A committee set up for a vote.
#[derive(Debug)]
pub struct CommitteeMembersManager {
    members: Vec<CommitteeMember>,
    threshold: usize,
}

impl CommitteeMembersManager {
    /// Sets up a committee of `members_no` members with the given
    /// threshold, with the reference string that `crs_seed` gives and keys
    /// drawn from `rng`.
    pub fn new(rng: &mut ChaCha20Rng, crs_seed: &[u8], threshold: usize, members_no: usize) -> (r:
        CommitteeMembersManager)
        requires
            0 < threshold <= members_no,
            threshold < usize::MAX,
        ensures
            r.secrets().len() == members_no,
            r.threshold_spec() == threshold,
    {
        let crs = Crs::from_hash(crs_seed);
        let mut public_keys: Vec<MemberCommunicationPublicKey> = Vec::new();
        let mut i: usize = 0;
        while i < members_no
            invariant
                i <= members_no,
                public_keys@.len() == i,
            decreases members_no - i,
        {
            let key = MemberCommunicationKey::new(rng);
            public_keys.push(key.to_public());
            i = i + 1;
        }
        let mut members: Vec<CommitteeMember> = Vec::new();
        let mut i: usize = 0;
        while i < members_no
            invariant
                i <= members_no,
                0 < threshold <= members_no,
                threshold < usize::MAX,
                public_keys@.len() == members_no,
                members@.len() == i,
            decreases members_no - i,
        {
            let state = MemberState::new(rng, threshold, &crs, public_keys.as_slice(), i);
            members.push(CommitteeMember { state });
            i = i + 1;
        }
        CommitteeMembersManager { members, threshold }
    }

    /// The secret shares of the members, in their order.
    pub closed spec fn secrets(&self) -> Seq<nat> {
        Seq::new(self.members@.len(), |i: int| self.members@[i].secret())
    }

    /// Number of members.
    pub open spec fn len(&self) -> nat {
        self.secrets().len()
    }

    /// The threshold of the committee.
    pub closed spec fn threshold_spec(&self) -> usize {
        self.threshold
    }

    /// The members.
    pub fn members(&self) -> (r: &Vec<CommitteeMember>)
        ensures
            r@.len() == self.secrets().len(),
            forall|i: int| 0 <= i < r@.len() ==> (#[trigger] r@[i]).secret() == self.secrets()[i],
    {
        &self.members
    }

    /// The threshold of the committee.
    pub fn threshold(&self) -> (r: usize)
        ensures
            r == self.threshold_spec(),
    {
        self.threshold
    }

    /// The public shares of the members, in their order: the generator
    /// taken as often as each member's secret.
    pub fn public_keys(&self) -> (r: Vec<MemberPublicKey>)
        ensures
            crate::committee::member_key_values(r@) == crate::tally_laws::public_shares(
                self.secrets(),
            ),
    {
        let mut out: Vec<MemberPublicKey> = Vec::new();
        let mut i: usize = 0;
        while i < self.members.len()
            invariant
                i <= self.members.len(),
                out@.len() == i,
                forall|k: int|
                    0 <= k < i ==> (#[trigger] out@[k])@ == crate::generator::gen_pow(
                        self.members@[k].secret(),
                    ),
            decreases self.members.len() - i,
        {
            out.push(self.members[i].public_key());
            i = i + 1;
        }
        proof {
            assert(crate::committee::member_key_values(out@) =~= crate::tally_laws::public_shares(
                self.secrets(),
            ));
        }
        out
    }

    /// The election key of the committee: the sum of the public shares.
    pub fn election_pk(&self) -> (r: ElectionPublicKey)
        ensures
            r@ == crate::gang::ge_sum(crate::tally_laws::public_shares(self.secrets())),
    {
        let keys = self.public_keys();
        ElectionPublicKey::from_participants(keys.as_slice())
    }
}

} // verus!
