//! The accounts of the ledger: what each holds and how often it has spent.

use crate::hash::copy_vec;
use crate::stake::{StakeControl, StakeEntry, UnspecifiedAccountIdentifier};
use crate::transaction::{Input, OutputAddress};
use crate::value::Value;
use vstd::prelude::*;

verus! {

/// The state of one account.
#[derive(Clone, Copy, Debug, PartialEq, Eq, Structural)]
pub struct AccountState {
    pub id: UnspecifiedAccountIdentifier,
    pub value: Value,
    pub counter: u32,
}

/// The index of the first account with the identifier, or the number of
/// accounts where there is none.
pub open spec fn account_index(accounts: Seq<AccountState>, id: Seq<u8>) -> int
    decreases accounts.len(),
{
    if accounts.len() == 0 {
        0
    } else if accounts[0].id@ == id {
        0
    } else {
        1 + account_index(accounts.drop_first(), id)
    }
}

/// The index of an account is at most the number of accounts; where it is
/// less, the account there has the identifier, and none before it has.
pub proof fn lemma_account_index(accounts: Seq<AccountState>, id: Seq<u8>)
    ensures
        0 <= account_index(accounts, id) <= accounts.len(),
        account_index(accounts, id) < accounts.len() ==> accounts[account_index(accounts, id)].id@
            == id,
        forall|k: int| 0 <= k < account_index(accounts, id) ==> (#[trigger] accounts[k]).id@ != id,
    decreases accounts.len(),
{
    if accounts.len() > 0 && accounts[0].id@ != id {
        let rest = accounts.drop_first();
        lemma_account_index(rest, id);
        assert forall|k: int| 0 <= k < account_index(accounts, id) implies (
        #[trigger] accounts[k]).id@ != id by {
            if k > 0 {
                assert(accounts[k] == rest[k - 1]);
            }
        }
    }
}

/// Where the first `i` accounts have other identifiers, and account `i` has
/// the identifier or there is none, `i` is the identifier's index.
pub proof fn lemma_account_index_is(accounts: Seq<AccountState>, id: Seq<u8>, i: int)
    requires
        0 <= i <= accounts.len(),
        forall|k: int| 0 <= k < i ==> (#[trigger] accounts[k]).id@ != id,
        i == accounts.len() || accounts[i].id@ == id,
    ensures
        account_index(accounts, id) == i,
    decreases accounts.len(),
{
    if accounts.len() > 0 && i > 0 {
        let rest = accounts.drop_first();
        assert forall|k: int| 0 <= k < i - 1 implies (#[trigger] rest[k]).id@ != id by {
            assert(rest[k] == accounts[k + 1]);
        }
        lemma_account_index_is(rest, id, i - 1);
        assert(accounts[0].id@ != id);
    }
}

/// The index of the account with the identifier, if there is one.
pub fn find_account(accounts: &Vec<AccountState>, id: &UnspecifiedAccountIdentifier) -> (r: Option<
    usize,
>)
    ensures
        match r {
            Some(i) => i == account_index(accounts@, id@) && i < accounts@.len(),
            None => account_index(accounts@, id@) == accounts@.len(),
        },
{
    let mut i: usize = 0;
    while i < accounts.len()
        invariant
            i <= accounts.len(),
            forall|k: int| 0 <= k < i ==> (#[trigger] accounts@[k]).id@ != id@,
        decreases accounts.len() - i,
    {
        if accounts[i].id.0.equals(&id.0) {
            proof {
                lemma_account_index_is(accounts@, id@, i as int);
            }
            return Some(i);
        }
        i = i + 1;
    }
    proof {
        lemma_account_index_is(accounts@, id@, accounts@.len() as int);
    }
    None
}

/// The accounts after the input was taken: the value of the account goes
/// down and its counter up. `None` where the account is not there, holds
/// too little, or has spent as often as can be counted.
pub open spec fn debit(accounts: Seq<AccountState>, input: Input) -> Option<Seq<AccountState>> {
    let i = account_index(accounts, input.account@);
    if i < accounts.len() && accounts[i].value.0 >= input.value.0 && accounts[i].counter
        < u32::MAX {
        Some(
            accounts.update(
                i,
                AccountState {
                    id: accounts[i].id,
                    value: Value((accounts[i].value.0 - input.value.0) as u64),
                    counter: (accounts[i].counter + 1) as u32,
                },
            ),
        )
    } else {
        None
    }
}

/// The accounts after all inputs were taken, one after the other.
pub open spec fn debit_all(accounts: Seq<AccountState>, inputs: Seq<Input>) -> Option<
    Seq<AccountState>,
>
    decreases inputs.len(),
{
    if inputs.len() == 0 {
        Some(accounts)
    } else {
        match debit_all(accounts, inputs.drop_last()) {
            Some(a) => debit(a, inputs.last()),
            None => None,
        }
    }
}

/// The accounts after the output was given: the value of the account goes
/// up, and an account that was not there is added at the end. `None` where
/// the value does not fit.
pub open spec fn credit(accounts: Seq<AccountState>, output: OutputAddress) -> Option<
    Seq<AccountState>,
> {
    let i = account_index(accounts, output.address@);
    if i < accounts.len() {
        if accounts[i].value.0 + output.value.0 <= u64::MAX {
            Some(
                accounts.update(
                    i,
                    AccountState {
                        id: accounts[i].id,
                        value: Value((accounts[i].value.0 + output.value.0) as u64),
                        counter: accounts[i].counter,
                    },
                ),
            )
        } else {
            None
        }
    } else {
        Some(accounts.push(AccountState { id: output.address, value: output.value, counter: 0 }))
    }
}

/// The accounts after all outputs were given, one after the other.
pub open spec fn credit_all(accounts: Seq<AccountState>, outputs: Seq<OutputAddress>) -> Option<
    Seq<AccountState>,
>
    decreases outputs.len(),
{
    if outputs.len() == 0 {
        Some(accounts)
    } else {
        match credit_all(accounts, outputs.drop_last()) {
            Some(a) => credit(a, outputs.last()),
            None => None,
        }
    }
}

/// The values of the inputs together.
pub open spec fn inputs_total(inputs: Seq<Input>) -> nat
    decreases inputs.len(),
{
    if inputs.len() == 0 {
        0
    } else {
        inputs_total(inputs.drop_last()) + inputs.last().value.0 as nat
    }
}

/// The values of the outputs together.
pub open spec fn outputs_total(outputs: Seq<OutputAddress>) -> nat
    decreases outputs.len(),
{
    if outputs.len() == 0 {
        0
    } else {
        outputs_total(outputs.drop_last()) + outputs.last().value.0 as nat
    }
}

/// The stake that the accounts stand for: each account's value.
pub open spec fn stake_entries(accounts: Seq<AccountState>) -> Seq<StakeEntry> {
    Seq::new(
        accounts.len(),
        |i: int| StakeEntry { account: accounts[i].id, stake: accounts[i].value.0 },
    )
}

/// The accounts after the input was taken.
pub fn debit_exec(accounts: &Vec<AccountState>, input: &Input) -> (r: Option<Vec<AccountState>>)
    ensures
        match r {
            Some(a) => debit(accounts@, *input) == Some(a@),
            None => debit(accounts@, *input) is None,
        },
{
    match find_account(accounts, &input.account) {
        None => None,
        Some(i) => {
            let a = accounts[i];
            if a.value.0 >= input.value.0 && a.counter < u32::MAX {
                let mut next = copy_vec(accounts);
                next.set(
                    i,
                    AccountState {
                        id: a.id,
                        value: Value(a.value.0 - input.value.0),
                        counter: a.counter + 1,
                    },
                );
                Some(next)
            } else {
                None
            }
        },
    }
}

/// The accounts after all inputs were taken.
pub fn debit_all_exec(accounts: &Vec<AccountState>, inputs: &Vec<Input>) -> (r: Option<
    Vec<AccountState>,
>)
    ensures
        match r {
            Some(a) => debit_all(accounts@, inputs@) == Some(a@),
            None => debit_all(accounts@, inputs@) is None,
        },
{
    let mut current = copy_vec(accounts);
    let mut i: usize = 0;
    proof {
        assert(inputs@.subrange(0, 0) =~= Seq::<Input>::empty());
    }
    while i < inputs.len()
        invariant
            i <= inputs.len(),
            debit_all(accounts@, inputs@.subrange(0, i as int)) == Some(current@),
        decreases inputs.len() - i,
    {
        proof {
            let next = inputs@.subrange(0, i + 1);
            assert(next.drop_last() =~= inputs@.subrange(0, i as int));
        }
        match debit_exec(&current, &inputs[i]) {
            Some(a) => {
                current = a;
            },
            None => {
                proof {
                    lemma_debit_all_fails(accounts@, inputs@, i + 1);
                }
                return None;
            },
        }
        i = i + 1;
    }
    proof {
        assert(inputs@.subrange(0, inputs@.len() as int) =~= inputs@);
    }
    Some(current)
}

/// Where the inputs up to some point cannot be taken, all of them cannot.
pub proof fn lemma_debit_all_fails(accounts: Seq<AccountState>, inputs: Seq<Input>, upto: int)
    requires
        0 <= upto <= inputs.len(),
        debit_all(accounts, inputs.subrange(0, upto)) is None,
    ensures
        debit_all(accounts, inputs) is None,
    decreases inputs.len() - upto,
{
    if upto == inputs.len() {
        assert(inputs.subrange(0, upto) =~= inputs);
    } else {
        let next = inputs.subrange(0, upto + 1);
        assert(next.drop_last() =~= inputs.subrange(0, upto));
        lemma_debit_all_fails(accounts, inputs, upto + 1);
    }
}

/// The accounts after the output was given.
pub fn credit_exec(accounts: &Vec<AccountState>, output: &OutputAddress) -> (r: Option<
    Vec<AccountState>,
>)
    ensures
        match r {
            Some(a) => credit(accounts@, *output) == Some(a@),
            None => credit(accounts@, *output) is None,
        },
{
    let mut next = copy_vec(accounts);
    match find_account(accounts, &output.address) {
        None => {
            next.push(AccountState { id: output.address, value: output.value, counter: 0 });
            Some(next)
        },
        Some(i) => {
            let a = accounts[i];
            if a.value.0 <= u64::MAX - output.value.0 {
                next.set(
                    i,
                    AccountState {
                        id: a.id,
                        value: Value(a.value.0 + output.value.0),
                        counter: a.counter,
                    },
                );
                Some(next)
            } else {
                None
            }
        },
    }
}

/// Where the outputs up to some point cannot be given, all of them cannot.
pub proof fn lemma_credit_all_fails(
    accounts: Seq<AccountState>,
    outputs: Seq<OutputAddress>,
    upto: int,
)
    requires
        0 <= upto <= outputs.len(),
        credit_all(accounts, outputs.subrange(0, upto)) is None,
    ensures
        credit_all(accounts, outputs) is None,
    decreases outputs.len() - upto,
{
    if upto == outputs.len() {
        assert(outputs.subrange(0, upto) =~= outputs);
    } else {
        let next = outputs.subrange(0, upto + 1);
        assert(next.drop_last() =~= outputs.subrange(0, upto));
        lemma_credit_all_fails(accounts, outputs, upto + 1);
    }
}

/// The accounts after all outputs were given.
pub fn credit_all_exec(accounts: &Vec<AccountState>, outputs: &Vec<OutputAddress>) -> (r: Option<
    Vec<AccountState>,
>)
    ensures
        match r {
            Some(a) => credit_all(accounts@, outputs@) == Some(a@),
            None => credit_all(accounts@, outputs@) is None,
        },
{
    let mut current = copy_vec(accounts);
    let mut i: usize = 0;
    proof {
        assert(outputs@.subrange(0, 0) =~= Seq::<OutputAddress>::empty());
    }
    while i < outputs.len()
        invariant
            i <= outputs.len(),
            credit_all(accounts@, outputs@.subrange(0, i as int)) == Some(current@),
        decreases outputs.len() - i,
    {
        proof {
            let next = outputs@.subrange(0, i + 1);
            assert(next.drop_last() =~= outputs@.subrange(0, i as int));
        }
        match credit_exec(&current, &outputs[i]) {
            Some(a) => {
                current = a;
            },
            None => {
                proof {
                    lemma_credit_all_fails(accounts@, outputs@, i + 1);
                }
                return None;
            },
        }
        i = i + 1;
    }
    proof {
        assert(outputs@.subrange(0, outputs@.len() as int) =~= outputs@);
    }
    Some(current)
}

/// The values of the inputs together, as far as they fit in 128 bits.
pub fn inputs_total_exec(inputs: &Vec<Input>) -> (r: u128)
    ensures
        r == inputs_total(inputs@),
{
    let count = inputs.len();
    let mut total: u128 = 0;
    let mut i: usize = 0;
    while i < inputs.len()
        invariant
            i <= inputs.len(),
            inputs@.len() <= u64::MAX,
            total == inputs_total(inputs@.subrange(0, i as int)),
            total <= i * u64::MAX,
        decreases inputs.len() - i,
    {
        proof {
            let next = inputs@.subrange(0, i + 1);
            assert(next.drop_last() =~= inputs@.subrange(0, i as int));
            assert(i * u64::MAX + u64::MAX <= u64::MAX * u64::MAX + u64::MAX) by (nonlinear_arith)
                requires
                    i <= u64::MAX,
            ;
            assert((i + 1) * u64::MAX == i * u64::MAX + u64::MAX) by (nonlinear_arith);
        }
        total = total + inputs[i].value.0 as u128;
        i = i + 1;
    }
    proof {
        assert(inputs@.subrange(0, inputs@.len() as int) =~= inputs@);
    }
    total
}

/// The values of the outputs together, as far as they fit in 128 bits.
pub fn outputs_total_exec(outputs: &Vec<OutputAddress>) -> (r: u128)
    ensures
        r == outputs_total(outputs@),
{
    let count = outputs.len();
    let mut total: u128 = 0;
    let mut i: usize = 0;
    while i < outputs.len()
        invariant
            i <= outputs.len(),
            outputs@.len() <= u64::MAX,
            total == outputs_total(outputs@.subrange(0, i as int)),
            total <= i * u64::MAX,
        decreases outputs.len() - i,
    {
        proof {
            let next = outputs@.subrange(0, i + 1);
            assert(next.drop_last() =~= outputs@.subrange(0, i as int));
            assert(i * u64::MAX + u64::MAX <= u64::MAX * u64::MAX + u64::MAX) by (nonlinear_arith)
                requires
                    i <= u64::MAX,
            ;
            assert((i + 1) * u64::MAX == i * u64::MAX + u64::MAX) by (nonlinear_arith);
        }
        total = total + outputs[i].value.0 as u128;
        i = i + 1;
    }
    proof {
        assert(outputs@.subrange(0, outputs@.len() as int) =~= outputs@);
    }
    total
}

/// The stake that the accounts stand for.
pub fn stake_of_accounts(accounts: &Vec<AccountState>) -> (r: StakeControl)
    ensures
        r@ == stake_entries(accounts@),
{
    let mut stake = StakeControl::new();
    let mut i: usize = 0;
    proof {
        assert(stake@ =~= stake_entries(accounts@).subrange(0, 0));
    }
    while i < accounts.len()
        invariant
            i <= accounts.len(),
            stake@ == stake_entries(accounts@).subrange(0, i as int),
        decreases accounts.len() - i,
    {
        let a = accounts[i];
        stake = stake.add_to(a.id, a.value.0);
        proof {
            let all = stake_entries(accounts@);
            assert(all.subrange(0, i + 1) =~= all.subrange(0, i as int).push(all[i as int]));
        }
        i = i + 1;
    }
    proof {
        let all = stake_entries(accounts@);
        assert(all.subrange(0, accounts@.len() as int) =~= all);
    }
    stake
}

} // verus!
