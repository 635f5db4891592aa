use vstd::prelude::*;

use crate::error::ErrorCode;
use crate::sums::{lemma_sum_by_remove, lemma_sum_by_update, lemma_sum_by_push, sum_by};

verus! {

/// One account of the value ledger.
#[derive(Clone, Copy, Debug, PartialEq, Eq, Structural)]
pub struct BalanceEntry {
    /// The account identifier.
    pub id: u64,
    /// The value the account holds.
    pub balance: u64,
}

/// The value ledger: every account's balance, with atomic transfers.
///
/// This models the economic ledger primitive the registry builds on: an
/// atomic value move between two accounts that either happens exactly or
/// not at all, reporting the pre and post balances of the payer.
pub struct Ledger {
    /// The accounts, uniquely keyed by id.
    pub accounts: Vec<BalanceEntry>,
}

/// The contribution of one entry to the balance of account `id`.
pub open spec fn bal_fn(id: u64) -> spec_fn(BalanceEntry) -> int {
    |e: BalanceEntry|
        if e.id == id {
            e.balance as int
        } else {
            0
        }
}

impl Ledger {
    /// The balance of an account; zero when no entry exists.
    pub open spec fn bal(&self, id: u64) -> int {
        sum_by(self.accounts@, bal_fn(id))
    }

    /// Entries are uniquely keyed.
    pub open spec fn wf(&self) -> bool {
        forall|i: int, j: int|
            0 <= i < j < self.accounts@.len() ==> (#[trigger] self.accounts@[i]).id != (
            #[trigger] self.accounts@[j]).id
    }

    /// A ledger with no accounts.
    pub fn new() -> (r: Ledger)
        ensures
            r.wf(),
            forall|id: u64| r.bal(id) == 0,
    {
        Ledger { accounts: Vec::new() }
    }

    /// An entry's balance is the account's balance, and an absent account's
    /// balance is zero.
    proof fn lemma_bal_at(&self, id: u64)
        requires
            self.wf(),
        ensures
            forall|i: int|
                0 <= i < self.accounts@.len() && (#[trigger] self.accounts@[i]).id == id
                    ==> self.bal(id) == self.accounts@[i].balance,
            (forall|i: int| 0 <= i < self.accounts@.len() ==> (#[trigger] self.accounts@[i]).id
                != id) ==> self.bal(id) == 0,
    {
        lemma_sum_zero_except(self.accounts@, id);
        assert forall|i: int|
            0 <= i < self.accounts@.len() && (#[trigger] self.accounts@[i]).id == id implies self
            .bal(id) == self.accounts@[i].balance by {
            lemma_sum_by_remove(self.accounts@, i, bal_fn(id));
            lemma_sum_zero_except(self.accounts@.remove(i), id);
        }
    }

    /// Index of the entry for an account, if one exists.
    fn find(&self, id: u64) -> (r: Option<usize>)
        ensures
            match r {
                Some(i) => i < self.accounts@.len() && self.accounts@[i as int].id == id,
                None => forall|i: int|
                    0 <= i < self.accounts@.len() ==> (#[trigger] self.accounts@[i]).id != id,
            },
    {
        let n = self.accounts.len();
        let mut i: usize = 0;
        while i < n
            invariant
                i <= n,
                n == self.accounts@.len(),
                forall|j: int| 0 <= j < i ==> (#[trigger] self.accounts@[j]).id != id,
            decreases n - i,
        {
            if self.accounts[i].id == id {
                return Some(i);
            }
            i = i + 1;
        }
        None
    }

    /// The balance an account currently holds.
    pub fn balance_of(&self, id: u64) -> (r: u64)
        requires
            self.wf(),
        ensures
            r == self.bal(id),
    {
        proof {
            self.lemma_bal_at(id);
        }
        match self.find(id) {
            Some(i) => self.accounts[i].balance,
            None => 0,
        }
    }

    /// Set the balance of an account, creating its entry if necessary.
    fn set_balance(&mut self, id: u64, value: u64)
        requires
            old(self).wf(),
        ensures
            final(self).wf(),
            final(self).bal(id) == value,
            forall|a: u64| a != id ==> final(self).bal(a) == old(self).bal(a),
    {
        proof {
            self.lemma_bal_at(id);
        }
        let entry = BalanceEntry { id, balance: value };
        match self.find(id) {
            Some(i) => {
                let ghost s0 = self.accounts@;
                self.accounts[i] = entry;
                proof {
                    lemma_sum_by_update(s0, i as int, entry, bal_fn(id));
                    lemma_sum_zero_except(self.accounts@.remove(i as int), id);
                    lemma_sum_by_remove(self.accounts@, i as int, bal_fn(id));
                    assert forall|a: u64| a != id implies final(self).bal(a) == sum_by(
                        s0,
                        bal_fn(a),
                    ) by {
                        lemma_sum_by_update(s0, i as int, entry, bal_fn(a));
                    }
                }
            },
            None => {
                let ghost s0 = self.accounts@;
                self.accounts.push(entry);
                proof {
                    lemma_sum_by_push(s0, entry, bal_fn(id));
                    lemma_sum_zero_except(s0, id);
                    assert forall|a: u64| a != id implies final(self).bal(a) == sum_by(
                        s0,
                        bal_fn(a),
                    ) by {
                        lemma_sum_by_push(s0, entry, bal_fn(a));
                    }
                }
            },
        }
    }

    /// Atomically move `amount` from `from` to `to`, reporting the payer's
    /// pre and post balances.
    ///
    /// The move happens exactly or not at all: on success the payer lost
    /// exactly `amount`, the payee gained exactly `amount`, and every other
    /// account is untouched; on failure nothing changed.
    pub fn transfer(&mut self, from: u64, to: u64, amount: u64) -> (r: Result<
        (u64, u64),
        ErrorCode,
    >)
        requires
            old(self).wf(),
        ensures
            final(self).wf(),
            match r {
                Ok(pre_post) => {
                    &&& pre_post.0 == old(self).bal(from)
                    &&& pre_post.1 == final(self).bal(from)
                    &&& old(self).bal(from) >= amount
                    &&& if from == to {
                        &&& *final(self) == *old(self)
                        &&& pre_post.1 == pre_post.0
                    } else {
                        &&& final(self).bal(from) == old(self).bal(from) - amount
                        &&& final(self).bal(to) == old(self).bal(to) + amount
                        &&& forall|a: u64|
                            a != from && a != to ==> final(self).bal(a) == old(self).bal(a)
                        &&& pre_post.1 == pre_post.0 - amount
                    }
                },
                Err(e) => {
                    &&& *final(self) == *old(self)
                    &&& (e == ErrorCode::InsufficientFunds || e == ErrorCode::Overflow)
                    &&& (e == ErrorCode::InsufficientFunds <==> old(self).bal(from) < amount)
                    &&& e == ErrorCode::Overflow ==> from != to && old(self).bal(to) + amount
                        > u64::MAX
                },
            },
            r is Ok <==> (old(self).bal(from) >= amount && (from == to || old(self).bal(to)
                + amount <= u64::MAX)),
    {
        let pre = self.balance_of(from);
        if pre < amount {
            return Err(ErrorCode::InsufficientFunds);
        }
        if from == to {
            return Ok((pre, pre));
        }
        let to_bal = self.balance_of(to);
        if to_bal > u64::MAX - amount {
            return Err(ErrorCode::Overflow);
        }
        self.set_balance(from, pre - amount);
        self.set_balance(to, to_bal + amount);
        Ok((pre, pre - amount))
    }
}

/// The balance contribution of every entry not keyed `id` is zero, so a
/// sequence without an entry for `id` sums to zero.
proof fn lemma_sum_zero_except(s: Seq<BalanceEntry>, id: u64)
    ensures
        (forall|i: int| 0 <= i < s.len() ==> (#[trigger] s[i]).id != id) ==> sum_by(
            s,
            bal_fn(id),
        ) == 0,
    decreases s.len(),
{
    if s.len() > 0 {
        lemma_sum_zero_except(s.drop_last(), id);
    }
}

} // verus!
