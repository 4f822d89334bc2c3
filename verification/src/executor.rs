use vstd::prelude::*;

use crate::errors::EscrowError;
use crate::ids::AccountId;
use crate::kvmap::{
    lemma_pairs_to_map_contains, lemma_pairs_to_map_get, lemma_pairs_to_map_push,
    lemma_pairs_to_map_update, lemma_map_values_push, lemma_map_values_update,
    lemma_unique_keys_push, lemma_unique_keys_update, pairs_to_map, unique_keys,
};

verus! {

/// The balance an account holds under a balance map; an account with no entry
/// holds zero.
pub open spec fn balance_in(m: Map<Seq<u8>, u128>, account: Seq<u8>) -> u128 {
    if m.contains_key(account) {
        m[account]
    } else {
        0
    }
}

/// Whether moving `amount` from `from` to `to` can succeed under the balance
/// map `m`: the source covers the amount, and crediting the destination does
/// not overflow its balance. A move from an account to itself only needs
/// coverage.
pub open spec fn can_transfer(
    m: Map<Seq<u8>, u128>,
    from: Seq<u8>,
    to: Seq<u8>,
    amount: u128,
) -> bool {
    balance_in(m, from) >= amount && (from == to || balance_in(m, to) + amount <= u128::MAX)
}

/// The balance map after moving `amount` from `from` to `to`. A move from an
/// account to itself leaves every balance unchanged.
pub open spec fn apply_transfer(
    m: Map<Seq<u8>, u128>,
    from: Seq<u8>,
    to: Seq<u8>,
    amount: u128,
) -> Map<Seq<u8>, u128> {
    if from == to {
        m
    } else {
        m.insert(from, (balance_in(m, from) - amount) as u128).insert(
            to,
            (balance_in(m, to) + amount) as u128,
        )
    }
}

/// Law: a transfer is local to its endpoints. Every account other than the
/// source and the destination holds exactly what it held before, so transfers
/// over disjoint accounts are independent of one another.
pub proof fn lemma_transfer_touches_only_endpoints(
    m: Map<Seq<u8>, u128>,
    from: Seq<u8>,
    to: Seq<u8>,
    amount: u128,
    other: Seq<u8>,
)
    requires
        other != from,
        other != to,
    ensures
        balance_in(apply_transfer(m, from, to, amount), other) == balance_in(m, other),
{
}

/// The move-value primitive of the currency ledger: an account-to-balance
/// table behind a single transfer operation. The escrow ledger never adjusts a
/// balance except through it.
pub struct TransferExecutor {
    accounts: Vec<(AccountId, u128)>,
}

impl View for TransferExecutor {
    type V = Map<Seq<u8>, u128>;

    closed spec fn view(&self) -> Map<Seq<u8>, u128> {
        pairs_to_map(self.entries())
    }
}

impl TransferExecutor {
    spec fn entries(&self) -> Seq<(Seq<u8>, u128)> {
        self.accounts@.map_values(|p: (AccountId, u128)| (p.0@, p.1))
    }

    /// The account table carries pairwise-distinct accounts.
    pub closed spec fn wf(&self) -> bool {
        unique_keys(self.entries())
    }

    pub fn new() -> (r: TransferExecutor)
        ensures
            r.wf(),
            r@ == Map::<Seq<u8>, u128>::empty(),
    {
        let r = TransferExecutor { accounts: Vec::new() };
        proof {
            assert(r.entries() =~= Seq::<(Seq<u8>, u128)>::empty());
        }
        r
    }

    /// The position of an account's entry, if it has one.
    fn find(&self, account: &AccountId) -> (r: Option<usize>)
        ensures
            (r matches Some(i) ==> i < self.accounts@.len() && self.accounts@[i as int].0@
                == account@),
            (r is None ==> forall|j: int|
                0 <= j < self.accounts@.len() ==> self.accounts@[j].0@ != account@),
    {
        let n = self.accounts.len();
        let mut i: usize = 0;
        while i < n
            invariant
                n == self.accounts@.len(),
                0 <= i <= n,
                forall|j: int| 0 <= j < i ==> self.accounts@[j].0@ != account@,
            decreases n - i,
        {
            if self.accounts[i].0.equals(account) {
                return Some(i);
            }
            i += 1;
        }
        None
    }

    /// The balance `account` holds.
    pub fn balance_of(&self, account: &AccountId) -> (r: u128)
        requires
            self.wf(),
        ensures
            r == balance_in(self@, account@),
    {
        match self.find(account) {
            Some(i) => {
                proof {
                    lemma_pairs_to_map_get(self.entries(), i as int);
                }
                self.accounts[i].1
            },
            None => {
                proof {
                    lemma_pairs_to_map_contains(self.entries(), account@);
                }
                0
            },
        }
    }

    /// Gives `account` the balance `value`, creating its entry if it has none.
    /// This is the setup surface of the in-memory ledger, standing for
    /// whatever balances the host ledger already holds.
    pub fn set_balance(&mut self, account: &AccountId, value: u128)
        requires
            old(self).wf(),
        ensures
            final(self).wf(),
            final(self)@ == old(self)@.insert(account@, value),
    {
        let ghost f = |p: (AccountId, u128)| (p.0@, p.1);
        let ghost pre = self.accounts@;
        match self.find(account) {
            Some(i) => {
                proof {
                    lemma_pairs_to_map_update(self.entries(), i as int, value);
                    lemma_unique_keys_update(self.entries(), i as int, value);
                }
                self.accounts[i].1 = value;
                proof {
                    lemma_map_values_update(pre, f, i as int, (pre[i as int].0, value));
                    assert(self.entries() =~= pre.map_values(f).update(
                        i as int,
                        (account@, value),
                    ));
                    assert(self.entries() =~= pre.map_values(f).update(
                        i as int,
                        (pre.map_values(f)[i as int].0, value),
                    ));
                }
            },
            None => {
                proof {
                    lemma_pairs_to_map_push(self.entries(), (account@, value));
                    lemma_unique_keys_push(self.entries(), (account@, value));
                }
                self.accounts.push((account.duplicate(), value));
                proof {
                    lemma_map_values_push(pre, f, self.accounts@.last());
                    assert(self.entries() =~= pre.map_values(f).push((account@, value)));
                }
            },
        }
    }

    /// Moves `amount` from `from` to `to`, atomically: on failure no balance
    /// changes. The `allow_full_drain` flag asks the ledger not to retain a
    /// minimum balance in the source; this in-memory ledger retains none
    /// either way, that policy belonging to the host ledger alone.
    pub fn move_value(
        &mut self,
        from: &AccountId,
        to: &AccountId,
        amount: u128,
        allow_full_drain: bool,
    ) -> (r: Result<(), EscrowError>)
        requires
            old(self).wf(),
        ensures
            final(self).wf(),
            r is Ok <==> can_transfer(old(self)@, from@, to@, amount),
            (r matches Ok(u) ==> final(self)@ == apply_transfer(old(self)@, from@, to@, amount)),
            (r matches Err(e) ==> final(self)@ == old(self)@ && e == (
            if balance_in(old(self)@, from@) < amount {
                EscrowError::InsufficientFunds
            } else {
                EscrowError::Overflow
            })),
    {
        let _ = allow_full_drain;
        let from_balance = self.balance_of(from);
        if from_balance < amount {
            return Err(EscrowError::InsufficientFunds);
        }
        if from.equals(to) {
            return Ok(());
        }
        let to_balance = self.balance_of(to);
        if amount > u128::MAX - to_balance {
            return Err(EscrowError::Overflow);
        }
        self.set_balance(from, from_balance - amount);
        proof {
            assert(balance_in(self@, to@) == to_balance);
        }
        self.set_balance(to, to_balance + amount);
        Ok(())
    }
}

} // verus!
