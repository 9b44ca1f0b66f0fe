//! What the protocol asks of the token ledger.

use vstd::prelude::*;
use crate::address::Address;

verus! {

/// Move `amount` from the account `from` to the account `to`, on the word of
/// `authority`.
#[derive(Clone, Copy, Debug, PartialEq, Eq)]
pub struct Transfer {
    pub from: Address,
    pub to: Address,
    pub authority: Address,
    pub amount: u64,
}

/// Issue `amount` of `mint` to the account `to`, on the word of `authority`.
#[derive(Clone, Copy, Debug, PartialEq, Eq)]
pub struct MintTo {
    pub mint: Address,
    pub to: Address,
    pub authority: Address,
    pub amount: u64,
}

/// Destroy `amount` of `mint` held by the account `from`, on the word of
/// `authority`.
#[derive(Clone, Copy, Debug, PartialEq, Eq)]
pub struct Burn {
    pub mint: Address,
    pub from: Address,
    pub authority: Address,
    pub amount: u64,
}

/// Why the token ledger refuses an operation.
#[derive(Clone, Copy, Debug, PartialEq, Eq, Structural)]
pub enum TokenError {
    /// The account, or the supply, holds less than the amount.
    InsufficientFunds,
    /// The amount would take a balance, or the supply, past what 64 bits hold.
    Overflow,
}

/// What the token ledger holds: the balance of every account and the supply
/// of every mint. An account or a mint that was never used holds zero. Who
/// may sign for an account is the ledger's matter and not recorded here.
#[verifier::ext_equal]
pub struct Holdings {
    pub balances: Map<Address, u64>,
    pub supplies: Map<Address, u64>,
}

impl Holdings {
    /// Every account and every mint is accounted for.
    pub open spec fn total(self) -> bool {
        &&& forall|account: Address| self.balances.dom().contains(account)
        &&& forall|mint: Address| self.supplies.dom().contains(mint)
    }

    /// The holdings in which nothing was issued yet.
    pub open spec fn empty() -> Holdings {
        Holdings {
            balances: Map::total(|a: Address| 0u64),
            supplies: Map::total(|a: Address| 0u64),
        }
    }

    /// The holdings after a transfer, or the reason for which it is refused.
    /// A transfer from an account to itself changes nothing.
    pub open spec fn transfer(self, op: Transfer) -> Result<Holdings, TokenError> {
        if self.balances[op.from] < op.amount {
            Err(TokenError::InsufficientFunds)
        } else if op.from == op.to {
            Ok(self)
        } else if self.balances[op.to] + op.amount > u64::MAX {
            Err(TokenError::Overflow)
        } else {
            Ok(
                Holdings {
                    balances: self.balances.insert(
                        op.from,
                        (self.balances[op.from] - op.amount) as u64,
                    ).insert(op.to, (self.balances[op.to] + op.amount) as u64),
                    supplies: self.supplies,
                },
            )
        }
    }

    /// The holdings after an issue, or the reason for which it is refused.
    pub open spec fn mint_to(self, op: MintTo) -> Result<Holdings, TokenError> {
        if self.supplies[op.mint] + op.amount > u64::MAX || self.balances[op.to] + op.amount
            > u64::MAX {
            Err(TokenError::Overflow)
        } else {
            Ok(
                Holdings {
                    balances: self.balances.insert(
                        op.to,
                        (self.balances[op.to] + op.amount) as u64,
                    ),
                    supplies: self.supplies.insert(
                        op.mint,
                        (self.supplies[op.mint] + op.amount) as u64,
                    ),
                },
            )
        }
    }

    /// The holdings after a burn, or the reason for which it is refused.
    pub open spec fn burn(self, op: Burn) -> Result<Holdings, TokenError> {
        if self.balances[op.from] < op.amount || self.supplies[op.mint] < op.amount {
            Err(TokenError::InsufficientFunds)
        } else {
            Ok(
                Holdings {
                    balances: self.balances.insert(
                        op.from,
                        (self.balances[op.from] - op.amount) as u64,
                    ),
                    supplies: self.supplies.insert(
                        op.mint,
                        (self.supplies[op.mint] - op.amount) as u64,
                    ),
                },
            )
        }
    }
}

/// The amount that a list of entries gives `key`: that of the last entry
/// under the key, and zero where there is none.
spec fn amount_of(entries: Seq<(Address, u64)>, key: Address) -> u64
    decreases entries.len(),
{
    if entries.len() == 0 {
        0
    } else if entries.last().0 == key {
        entries.last().1
    } else {
        amount_of(entries.drop_last(), key)
    }
}

proof fn lemma_amount_absent(entries: Seq<(Address, u64)>, key: Address)
    requires
        forall|j: int| 0 <= j < entries.len() ==> entries[j].0 != key,
    ensures
        amount_of(entries, key) == 0,
    decreases entries.len(),
{
    if entries.len() > 0 {
        lemma_amount_absent(entries.drop_last(), key);
    }
}

proof fn lemma_amount_present(entries: Seq<(Address, u64)>, at: int, key: Address)
    requires
        0 <= at < entries.len(),
        entries[at].0 == key,
        forall|j: int| at < j < entries.len() ==> entries[j].0 != key,
    ensures
        amount_of(entries, key) == entries[at].1,
    decreases entries.len(),
{
    if at < entries.len() - 1 {
        lemma_amount_present(entries.drop_last(), at, key);
    }
}

proof fn lemma_amount_replaced(
    entries: Seq<(Address, u64)>,
    at: int,
    key: Address,
    amount: u64,
    other: Address,
)
    requires
        0 <= at < entries.len(),
        entries[at].0 == key,
    ensures
        other != key ==> amount_of(entries.update(at, (key, amount)), other) == amount_of(
            entries,
            other,
        ),
    decreases entries.len(),
{
    let replaced = entries.update(at, (key, amount));
    if at < entries.len() - 1 {
        assert(replaced.drop_last() =~= entries.drop_last().update(at, (key, amount)));
        lemma_amount_replaced(entries.drop_last(), at, key, amount, other);
    } else {
        assert(replaced.drop_last() =~= entries.drop_last());
    }
}

/// The last entry under `key`, if there is one.
fn position(entries: &Vec<(Address, u64)>, key: &Address) -> (r: Option<usize>)
    ensures
        match r {
            Some(at) => {
                &&& at < entries@.len()
                &&& entries@[at as int].0 == *key
                &&& forall|j: int| at < j < entries@.len() ==> entries@[j].0 != *key
                &&& amount_of(entries@, *key) == entries@[at as int].1
            },
            None => amount_of(entries@, *key) == 0,
        },
{
    let mut i = entries.len();
    while i > 0
        invariant
            i <= entries@.len(),
            forall|j: int| i <= j < entries@.len() ==> entries@[j].0 != *key,
        decreases i,
    {
        i -= 1;
        if entries[i].0.same(key) {
            proof {
                lemma_amount_present(entries@, i as int, *key);
            }
            return Some(i);
        }
    }
    proof {
        lemma_amount_absent(entries@, *key);
    }
    None
}

/// The amount that the entries give `key`.
fn amount_at(entries: &Vec<(Address, u64)>, key: &Address) -> (amount: u64)
    ensures
        amount == amount_of(entries@, *key),
{
    match position(entries, key) {
        Some(at) => entries[at].1,
        None => 0,
    }
}

/// Gives `key` the amount `amount` and leaves every other key as it is.
fn record(entries: &mut Vec<(Address, u64)>, key: &Address, amount: u64)
    ensures
        forall|other: Address|
            #[trigger] amount_of(final(entries)@, other) == if other == *key {
                amount
            } else {
                amount_of(old(entries)@, other)
            },
{
    match position(entries, key) {
        Some(at) => {
            entries[at] = (*key, amount);
            proof {
                assert(entries@ =~= old(entries)@.update(at as int, (*key, amount)));
                lemma_amount_present(entries@, at as int, *key);
                assert forall|other: Address| other != *key implies amount_of(entries@, other)
                    == amount_of(old(entries)@, other) by {
                    lemma_amount_replaced(old(entries)@, at as int, *key, amount, other);
                }
            }
        },
        None => {
            entries.push((*key, amount));
            assert(entries@.drop_last() =~= old(entries)@);
        },
    }
}

/// A token ledger held in memory, to run the protocol's transfers against.
#[derive(Clone, Debug)]
pub struct Ledger {
    balances: Vec<(Address, u64)>,
    supplies: Vec<(Address, u64)>,
}

impl View for Ledger {
    type V = Holdings;

    closed spec fn view(&self) -> Holdings {
        Holdings {
            balances: Map::total(|a: Address| amount_of(self.balances@, a)),
            supplies: Map::total(|a: Address| amount_of(self.supplies@, a)),
        }
    }
}

impl Ledger {
    /// A ledger on which nothing was issued yet.
    pub fn new() -> (ledger: Ledger)
        ensures
            ledger@ == Holdings::empty(),
    {
        let ledger = Ledger { balances: Vec::new(), supplies: Vec::new() };
        assert(ledger@ =~= Holdings::empty());
        ledger
    }

    /// The view of a ledger accounts for every account and every mint.
    pub proof fn lemma_total(&self)
        ensures
            self@.total(),
    {
    }

    /// What `account` holds.
    pub fn balance(&self, account: &Address) -> (amount: u64)
        ensures
            amount == self@.balances[*account],
    {
        amount_at(&self.balances, account)
    }

    /// How much of `mint` is issued.
    pub fn supply(&self, mint: &Address) -> (amount: u64)
        ensures
            amount == self@.supplies[*mint],
    {
        amount_at(&self.supplies, mint)
    }

    /// Moves tokens between two accounts, or refuses and changes nothing.
    pub fn transfer(&mut self, op: &Transfer) -> (r: Result<(), TokenError>)
        ensures
            match old(self)@.transfer(*op) {
                Ok(after) => r is Ok && final(self)@ == after,
                Err(e) => r == Err::<(), TokenError>(e) && final(self)@ == old(self)@,
            },
    {
        let held = amount_at(&self.balances, &op.from);
        if held < op.amount {
            return Err(TokenError::InsufficientFunds);
        }
        if op.from.same(&op.to) {
            return Ok(());
        }
        let there = amount_at(&self.balances, &op.to);
        if there > u64::MAX - op.amount {
            return Err(TokenError::Overflow);
        }
        record(&mut self.balances, &op.from, held - op.amount);
        record(&mut self.balances, &op.to, there + op.amount);
        assert(self@ =~= old(self)@.transfer(*op)->Ok_0);
        Ok(())
    }

    /// Issues tokens to an account, or refuses and changes nothing.
    pub fn mint_to(&mut self, op: &MintTo) -> (r: Result<(), TokenError>)
        ensures
            match old(self)@.mint_to(*op) {
                Ok(after) => r is Ok && final(self)@ == after,
                Err(e) => r == Err::<(), TokenError>(e) && final(self)@ == old(self)@,
            },
    {
        let issued = amount_at(&self.supplies, &op.mint);
        let there = amount_at(&self.balances, &op.to);
        if issued > u64::MAX - op.amount || there > u64::MAX - op.amount {
            return Err(TokenError::Overflow);
        }
        record(&mut self.supplies, &op.mint, issued + op.amount);
        record(&mut self.balances, &op.to, there + op.amount);
        assert(self@ =~= old(self)@.mint_to(*op)->Ok_0);
        Ok(())
    }

    /// Destroys tokens of an account, or refuses and changes nothing.
    pub fn burn(&mut self, op: &Burn) -> (r: Result<(), TokenError>)
        ensures
            match old(self)@.burn(*op) {
                Ok(after) => r is Ok && final(self)@ == after,
                Err(e) => r == Err::<(), TokenError>(e) && final(self)@ == old(self)@,
            },
    {
        let held = amount_at(&self.balances, &op.from);
        let issued = amount_at(&self.supplies, &op.mint);
        if held < op.amount || issued < op.amount {
            return Err(TokenError::InsufficientFunds);
        }
        record(&mut self.balances, &op.from, held - op.amount);
        record(&mut self.supplies, &op.mint, issued - op.amount);
        assert(self@ =~= old(self)@.burn(*op)->Ok_0);
        Ok(())
    }
}

} // verus!
