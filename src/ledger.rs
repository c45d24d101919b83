//! The ledger: balances, total supply and storage registration.
use vstd::prelude::*;
use crate::error::LedgerError;
use crate::model::{
    LedgerModel, lemma_index, lemma_move_funds, lemma_with_account, lemma_with_balance,
    lemma_without_account, sum_balances,
};

verus! {

/// What one byte of account storage costs.
pub const STORAGE_PRICE_PER_BYTE: u128 = 10_000_000_000_000_000_000;

/// The bytes that one account record takes.
pub const ACCOUNT_STORAGE_BYTES: u128 = 125;

/// The least deposit that registers an account.
pub const MIN_STORAGE_DEPOSIT: u128 = STORAGE_PRICE_PER_BYTE * ACCOUNT_STORAGE_BYTES;

/// What a registration request hands back.
#[derive(PartialEq, Eq, Structural, Debug, Clone, Copy)]
pub struct StorageReceipt {
    /// Whether the request created the account's record.
    pub newly_registered: bool,
    /// The part of the deposit returned to the caller.
    pub refund: u128,
}

/// The first check that a transfer of `n` from `from` to `to` fails, if any.
pub open spec fn transfer_error(m: LedgerModel, from: Seq<char>, to: Seq<char>, n: nat) -> Option<
    LedgerError,
> {
    if n == 0 {
        Some(LedgerError::ZeroAmountTransfer)
    } else if !m.is_registered(from) {
        Some(LedgerError::SenderNotRegistered)
    } else if !m.is_registered(to) {
        Some(LedgerError::ReceiverNotRegistered)
    } else if from == to {
        Some(LedgerError::SelfTransfer)
    } else if m.balance(from) < n {
        Some(LedgerError::InsufficientBalance)
    } else {
        None
    }
}

/// The ledger. Each registered account has one record; the balances of all
/// records add up to the total supply.
pub struct Ledger {
    ids: Vec<String>,
    balances: Vec<u128>,
    total_supply: u128,
}

impl View for Ledger {
    type V = LedgerModel;

    closed spec fn view(&self) -> LedgerModel {
        LedgerModel {
            records: Seq::new(
                self.ids@.len(),
                |i: int| (self.ids@[i]@, self.balances@[i] as nat),
            ),
            supply: self.total_supply as nat,
        }
    }
}

impl Ledger {
    /// Each account id has its balance beside it, and the model is well formed.
    pub closed spec fn wf(&self) -> bool {
        &&& self.ids@.len() == self.balances@.len()
        &&& self@.wf()
    }

    /// The total supply is the sum of all balances, in every well-formed
    /// ledger; each operation keeps the ledger well formed.
    pub proof fn lemma_supply_is_sum(&self)
        requires
            self.wf(),
        ensures
            self@.supply == sum_balances(self@.records),
            self@.wf(),
    {
    }

    /// A ledger in which `owner` holds the whole `total_supply`.
    pub fn new(owner: &String, total_supply: u128) -> (r: Ledger)
        ensures
            r.wf(),
            r@ == LedgerModel::issued(owner@, total_supply as nat),
            r@.balance(owner@) == total_supply,
            r@.supply == total_supply,
    {
        let mut ids: Vec<String> = Vec::new();
        ids.push(owner.clone());
        let mut balances: Vec<u128> = Vec::new();
        balances.push(total_supply);
        let r = Ledger { ids, balances, total_supply };
        assert(r@.records =~= seq![(owner@, total_supply as nat)]);
        assert(sum_balances(r@.records) == total_supply) by {
            assert(r@.records.drop_last() =~= Seq::<(Seq<char>, nat)>::empty());
            assert(sum_balances(r@.records.drop_last()) == 0);
        }
        proof {
            lemma_index(r@, owner@, 0);
        }
        r
    }

    /// The total supply.
    pub fn total_supply(&self) -> (r: u128)
        ensures
            r == self@.supply,
    {
        self.total_supply
    }

    fn find(&self, a: &String) -> (r: Option<usize>)
        requires
            self.wf(),
        ensures
            match r {
                Some(i) => i < self@.records.len() && self@.records[i as int].0 == a@
                    && self@.index_of(a@) == i && self@.is_registered(a@),
                None => !self@.is_registered(a@),
            },
    {
        let mut i: usize = 0;
        while i < self.ids.len()
            invariant
                self.wf(),
                i <= self.ids@.len(),
                forall|k: int| 0 <= k < i ==> self@.records[k].0 != a@,
            decreases self.ids@.len() - i,
        {
            if self.ids[i] == *a {
                proof {
                    lemma_index(self@, a@, i as int);
                }
                return Some(i);
            }
            i = i + 1;
        }
        None
    }

    /// The balance of an account; 0 for one that is not registered.
    pub fn balance_of(&self, a: &String) -> (r: u128)
        requires
            self.wf(),
        ensures
            r == self@.balance(a@),
    {
        match self.find(a) {
            Some(i) => self.balances[i],
            None => 0,
        }
    }

    /// Whether an account holds a registration.
    pub fn is_registered(&self, a: &String) -> (r: bool)
        requires
            self.wf(),
        ensures
            r == self@.is_registered(a@),
    {
        self.find(a).is_some()
    }

    /// The least deposit that registers an account.
    pub fn storage_balance_bounds() -> (r: u128)
        ensures
            r == MIN_STORAGE_DEPOSIT,
    {
        MIN_STORAGE_DEPOSIT
    }

    /// Registers `a` against `deposit`. An account that is already registered
    /// is left as it is and its deposit is returned whole; otherwise a deposit
    /// of at least the storage minimum creates a record with balance 0 and the
    /// excess is returned.
    pub fn register(&mut self, a: &String, deposit: u128) -> (r: Result<StorageReceipt, LedgerError>)
        requires
            old(self).wf(),
        ensures
            final(self).wf(),
            old(self)@.is_registered(a@) ==> r == Ok::<StorageReceipt, LedgerError>(
                StorageReceipt { newly_registered: false, refund: deposit },
            ) && final(self)@ == old(self)@,
            !old(self)@.is_registered(a@) && deposit < MIN_STORAGE_DEPOSIT ==> r == Err::<
                StorageReceipt,
                LedgerError,
            >(LedgerError::InsufficientStorageDeposit) && final(self)@ == old(self)@,
            !old(self)@.is_registered(a@) && deposit >= MIN_STORAGE_DEPOSIT ==> r == Ok::<
                StorageReceipt,
                LedgerError,
            >(StorageReceipt { newly_registered: true, refund: (deposit - MIN_STORAGE_DEPOSIT) as u128 })
                && final(self)@ == old(self)@.with_account(a@),
            final(self)@.is_registered(a@) == (old(self)@.is_registered(a@) || deposit
                >= MIN_STORAGE_DEPOSIT),
            final(self)@.balance(a@) == old(self)@.balance(a@),
            final(self)@.same_elsewhere(old(self)@, set![a@]),
            final(self)@.supply == old(self)@.supply,
    {
        let ghost m = self@;
        if self.find(a).is_some() {
            return Ok(StorageReceipt { newly_registered: false, refund: deposit });
        }
        if deposit < MIN_STORAGE_DEPOSIT {
            return Err(LedgerError::InsufficientStorageDeposit);
        }
        self.ids.push(a.clone());
        self.balances.push(0);
        assert(self@.records =~= m.records.push((a@, 0)));
        proof {
            lemma_with_account(m, a@);
        }
        Ok(StorageReceipt { newly_registered: true, refund: deposit - MIN_STORAGE_DEPOSIT })
    }

    /// Closes the account `a`, removing its record. An account that holds
    /// tokens is closed only when `force` is set, and its balance is then
    /// burnt from the total supply.
    pub fn unregister(&mut self, a: &String, force: bool) -> (r: Result<bool, LedgerError>)
        requires
            old(self).wf(),
        ensures
            final(self).wf(),
            !old(self)@.is_registered(a@) ==> r == Err::<bool, LedgerError>(
                LedgerError::AccountNotRegistered,
            ) && final(self)@ == old(self)@,
            old(self)@.is_registered(a@) && old(self)@.balance(a@) > 0 && !force ==> r == Err::<
                bool,
                LedgerError,
            >(LedgerError::NonEmptyBalanceOnClose) && final(self)@ == old(self)@,
            old(self)@.is_registered(a@) && (old(self)@.balance(a@) == 0 || force) ==> r == Ok::<
                bool,
                LedgerError,
            >(true) && final(self)@ == old(self)@.without_account(a@) && !final(self)@.is_registered(
                a@,
            ) && final(self)@.supply == old(self)@.supply - old(self)@.balance(a@),
            final(self)@.same_elsewhere(old(self)@, set![a@]),
    {
        let ghost m = self@;
        match self.find(a) {
            None => Err(LedgerError::AccountNotRegistered),
            Some(i) => {
                let b = self.balances[i];
                if b > 0 && !force {
                    return Err(LedgerError::NonEmptyBalanceOnClose);
                }
                proof {
                    lemma_without_account(m, a@);
                    crate::model::lemma_balance_le_supply(m, a@);
                }
                self.ids.remove(i);
                self.balances.remove(i);
                self.total_supply = self.total_supply - b;
                assert(self@.records =~= m.records.remove(i as int));
                Ok(true)
            },
        }
    }

    /// Moves `amount` from `sender` to `receiver`, both registered and
    /// distinct, where the sender holds at least `amount` and `amount` is
    /// positive; otherwise the first check that fails is reported and nothing
    /// changes.
    pub fn transfer(&mut self, sender: &String, receiver: &String, amount: u128) -> (r: Result<
        (),
        LedgerError,
    >)
        requires
            old(self).wf(),
        ensures
            final(self).wf(),
            match transfer_error(old(self)@, sender@, receiver@, amount as nat) {
                Some(e) => r == Err::<(), LedgerError>(e) && final(self)@ == old(self)@,
                None => {
                    &&& r is Ok
                    &&& final(self)@ == old(self)@.move_funds(sender@, receiver@, amount as nat)
                    &&& final(self)@.balance(sender@) == old(self)@.balance(sender@) - amount
                    &&& final(self)@.balance(receiver@) == old(self)@.balance(receiver@) + amount
                    &&& final(self)@.same_elsewhere(old(self)@, set![sender@, receiver@])
                    &&& final(self)@.supply == old(self)@.supply
                },
            },
    {
        match self.check_transfer(sender, receiver, amount) {
            Err(e) => Err(e),
            Ok((i, j)) => {
                proof {
                    lemma_move_funds(self@, sender@, receiver@, amount as nat);
                }
                self.move_funds(i, j, amount);
                Ok(())
            },
        }
    }

    /// The positions of sender and receiver where the transfer passes every
    /// check, else the first check that fails.
    fn check_transfer(&self, sender: &String, receiver: &String, amount: u128) -> (r:
        Result<(usize, usize), LedgerError>)
        requires
            self.wf(),
        ensures
            match transfer_error(self@, sender@, receiver@, amount as nat) {
                Some(e) => r == Err::<(usize, usize), LedgerError>(e),
                None => r is Ok && {
                    let (i, j) = r->Ok_0;
                    &&& i < self@.records.len()
                    &&& j < self@.records.len()
                    &&& i != j
                    &&& self@.records[i as int].0 == sender@
                    &&& self@.records[j as int].0 == receiver@
                    &&& amount <= self@.records[i as int].1
                },
            },
    {
        if amount == 0 {
            return Err(LedgerError::ZeroAmountTransfer);
        }
        let i = match self.find(sender) {
            Some(i) => i,
            None => {
                return Err(LedgerError::SenderNotRegistered);
            },
        };
        let j = match self.find(receiver) {
            Some(j) => j,
            None => {
                return Err(LedgerError::ReceiverNotRegistered);
            },
        };
        if i == j {
            return Err(LedgerError::SelfTransfer);
        }
        proof {
            lemma_index(self@, sender@, i as int);
            lemma_index(self@, receiver@, j as int);
        }
        if self.balances[i] < amount {
            return Err(LedgerError::InsufficientBalance);
        }
        Ok((i, j))
    }

    /// Moves `n` from the record at `i` to the record at `j`.
    fn move_funds(&mut self, i: usize, j: usize, n: u128)
        requires
            old(self).wf(),
            i < old(self)@.records.len(),
            j < old(self)@.records.len(),
            i != j,
            n <= old(self)@.records[i as int].1,
        ensures
            final(self).wf(),
            final(self)@ == old(self)@.move_funds(
                old(self)@.records[i as int].0,
                old(self)@.records[j as int].0,
                n as nat,
            ),
    {
        let ghost m = self@;
        let ghost from = m.records[i as int].0;
        let ghost to = m.records[j as int].0;
        proof {
            lemma_index(m, from, i as int);
            lemma_index(m, to, j as int);
            lemma_move_funds(m, from, to, n as nat);
            lemma_with_balance(m, from, (m.balance(from) - n) as nat);
        }
        let ghost d = m.with_balance(from, (m.balance(from) - n) as nat);
        let b = self.balances[i];
        self.balances.set(i, b - n);
        assert(self@.records =~= d.records);
        proof {
            lemma_index(d, to, j as int);
        }
        let c = self.balances[j];
        self.balances.set(j, c + n);
        assert(self@.records =~= m.move_funds(from, to, n as nat).records);
    }
}

} // verus!
