//! The mathematical model of the ledger: one record per registered account,
//! holding its balance, and the total supply.
use vstd::prelude::*;
use crate::amount::MAX_AMOUNT;

verus! {

/// The sum of the balances held in a sequence of account records.
pub open spec fn sum_balances(records: Seq<(Seq<char>, nat)>) -> nat
    decreases records.len(),
{
    if records.len() == 0 {
        0
    } else {
        sum_balances(records.drop_last()) + records.last().1
    }
}

/// The ledger as a value: its account records, in order of registration, and
/// its total supply.
pub struct LedgerModel {
    pub records: Seq<(Seq<char>, nat)>,
    pub supply: nat,
}

impl LedgerModel {
    /// No account holds two records.
    pub open spec fn keys_unique(self) -> bool {
        forall|i: int, j: int|
            0 <= i < self.records.len() && 0 <= j < self.records.len() && i != j
                ==> #[trigger] self.records[i].0 != #[trigger] self.records[j].0
    }

    /// Records are unique, the balances add up to the total supply, and the
    /// supply fits in an amount.
    pub open spec fn wf(self) -> bool {
        &&& self.keys_unique()
        &&& self.supply == sum_balances(self.records)
        &&& self.supply <= MAX_AMOUNT
    }

    pub open spec fn is_registered(self, a: Seq<char>) -> bool {
        exists|i: int| 0 <= i < self.records.len() && #[trigger] self.records[i].0 == a
    }

    /// Where the record of a registered account stands.
    pub open spec fn index_of(self, a: Seq<char>) -> int {
        choose|i: int| 0 <= i < self.records.len() && #[trigger] self.records[i].0 == a
    }

    /// The balance of an account; 0 for one that is not registered.
    pub open spec fn balance(self, a: Seq<char>) -> nat {
        if self.is_registered(a) {
            self.records[self.index_of(a)].1
        } else {
            0
        }
    }

    /// The ledger with the balance of the registered account `a` set to `v`.
    pub open spec fn with_balance(self, a: Seq<char>, v: nat) -> LedgerModel {
        LedgerModel { records: self.records.update(self.index_of(a), (a, v)), supply: self.supply }
    }

    /// The ledger after `n` moved from `from` to `to`.
    pub open spec fn move_funds(self, from: Seq<char>, to: Seq<char>, n: nat) -> LedgerModel {
        let debited = self.with_balance(from, (self.balance(from) - n) as nat);
        debited.with_balance(to, debited.balance(to) + n)
    }

    /// The ledger with a fresh record, of balance 0, for `a`.
    pub open spec fn with_account(self, a: Seq<char>) -> LedgerModel {
        LedgerModel { records: self.records.push((a, 0)), supply: self.supply }
    }

    /// The ledger without the record of `a`, whose balance is burnt.
    pub open spec fn without_account(self, a: Seq<char>) -> LedgerModel {
        LedgerModel {
            records: self.records.remove(self.index_of(a)),
            supply: (self.supply - self.balance(a)) as nat,
        }
    }

    /// A ledger in which `owner` holds the whole supply.
    pub open spec fn issued(owner: Seq<char>, supply: nat) -> LedgerModel {
        LedgerModel { records: seq![(owner, supply)], supply }
    }

    /// The two ledgers agree on every account outside `except`.
    pub open spec fn same_elsewhere(self, other: LedgerModel, except: Set<Seq<char>>) -> bool {
        forall|k: Seq<char>|
            !except.contains(k) ==> {
                &&& #[trigger] other.is_registered(k) == self.is_registered(k)
                &&& other.balance(k) == self.balance(k)
            }
    }
}

/// In a ledger with unique records, the record at `i` is the one of its account.
pub proof fn lemma_index(m: LedgerModel, a: Seq<char>, i: int)
    requires
        m.keys_unique(),
        0 <= i < m.records.len(),
        m.records[i].0 == a,
    ensures
        m.is_registered(a),
        m.index_of(a) == i,
        m.balance(a) == m.records[i].1,
{
    assert(m.is_registered(a));
    let j = m.index_of(a);
    assert(m.records[j].0 == a);
}

proof fn lemma_sum_update(s: Seq<(Seq<char>, nat)>, i: int, x: (Seq<char>, nat))
    requires
        0 <= i < s.len(),
    ensures
        sum_balances(s.update(i, x)) == sum_balances(s) - s[i].1 + x.1,
    decreases s.len(),
{
    let t = s.update(i, x);
    if i == s.len() - 1 {
        assert(t.drop_last() =~= s.drop_last());
    } else {
        lemma_sum_update(s.drop_last(), i, x);
        assert(t.drop_last() =~= s.drop_last().update(i, x));
    }
}

proof fn lemma_sum_remove(s: Seq<(Seq<char>, nat)>, i: int)
    requires
        0 <= i < s.len(),
    ensures
        sum_balances(s.remove(i)) == sum_balances(s) - s[i].1,
    decreases s.len(),
{
    let t = s.remove(i);
    if i == s.len() - 1 {
        assert(t =~= s.drop_last());
    } else {
        lemma_sum_remove(s.drop_last(), i);
        assert(t.drop_last() =~= s.drop_last().remove(i));
    }
}

proof fn lemma_entry_le_sum(s: Seq<(Seq<char>, nat)>, i: int)
    requires
        0 <= i < s.len(),
    ensures
        s[i].1 <= sum_balances(s),
    decreases s.len(),
{
    if i < s.len() - 1 {
        lemma_entry_le_sum(s.drop_last(), i);
    }
}

/// Every balance is bounded by the supply.
pub proof fn lemma_balance_le_supply(m: LedgerModel, a: Seq<char>)
    requires
        m.wf(),
    ensures
        m.balance(a) <= m.supply,
{
    if m.is_registered(a) {
        lemma_entry_le_sum(m.records, m.index_of(a));
    }
}

/// Setting one registered balance changes that balance and the sum of all,
/// and nothing else.
pub proof fn lemma_with_balance(m: LedgerModel, a: Seq<char>, v: nat)
    requires
        m.keys_unique(),
        m.is_registered(a),
    ensures
        m.with_balance(a, v).keys_unique(),
        m.with_balance(a, v).balance(a) == v,
        m.with_balance(a, v).is_registered(a),
        m.with_balance(a, v).same_elsewhere(m, set![a]),
        m.with_balance(a, v).supply == m.supply,
        m.with_balance(a, v).records.len() == m.records.len(),
        forall|k: int|
            0 <= k < m.records.len() ==> (#[trigger] m.with_balance(a, v).records[k]).0
                == m.records[k].0,
        sum_balances(m.with_balance(a, v).records) == sum_balances(m.records) - m.balance(a) + v,
{
    let i = m.index_of(a);
    let r = m.with_balance(a, v);
    lemma_sum_update(m.records, i, (a, v));
    assert(r.keys_unique());
    lemma_index(r, a, i);
    assert forall|k: Seq<char>| !set![a].contains(k) implies {
        &&& #[trigger] m.is_registered(k) == r.is_registered(k)
        &&& m.balance(k) == r.balance(k)
    } by {
        if m.is_registered(k) {
            let j = m.index_of(k);
            lemma_index(r, k, j);
        }
        if r.is_registered(k) {
            let j = r.index_of(k);
            lemma_index(m, k, j);
        }
    }
}

/// A transfer between two registered accounts moves exactly `n` from one to
/// the other, keeps the supply and the sum of balances equal, and leaves every
/// other account as it was.
pub proof fn lemma_move_funds(m: LedgerModel, from: Seq<char>, to: Seq<char>, n: nat)
    requires
        m.wf(),
        m.is_registered(from),
        m.is_registered(to),
        from != to,
        n <= m.balance(from),
    ensures
        m.move_funds(from, to, n).wf(),
        m.move_funds(from, to, n).balance(from) == m.balance(from) - n,
        m.move_funds(from, to, n).balance(to) == m.balance(to) + n,
        m.move_funds(from, to, n).is_registered(from),
        m.move_funds(from, to, n).is_registered(to),
        m.move_funds(from, to, n).same_elsewhere(m, set![from, to]),
        m.move_funds(from, to, n).supply == m.supply,
        m.balance(to) + n <= m.supply,
        m.move_funds(from, to, n).records.len() == m.records.len(),
        forall|k: int|
            0 <= k < m.records.len() ==> (#[trigger] m.move_funds(from, to, n).records[k]).0
                == m.records[k].0,
{
    let d = m.with_balance(from, (m.balance(from) - n) as nat);
    lemma_with_balance(m, from, (m.balance(from) - n) as nat);
    assert(!set![from].contains(to));
    lemma_with_balance(d, to, d.balance(to) + n);
    lemma_entry_le_sum(d.records, d.index_of(to));
    lemma_index(d, to, d.index_of(to));
    let r = d.with_balance(to, d.balance(to) + n);
    assert forall|k: int| 0 <= k < m.records.len() implies (#[trigger] r.records[k]).0
        == m.records[k].0 by {
        assert(d.records[k].0 == m.records[k].0);
    }
    assert(!set![to].contains(from));
    assert forall|k: Seq<char>| !set![from, to].contains(k) implies {
        &&& #[trigger] m.is_registered(k) == r.is_registered(k)
        &&& m.balance(k) == r.balance(k)
    } by {
        assert(!set![from].contains(k));
        assert(!set![to].contains(k));
    }
}

/// A fresh record for an unregistered account holds 0 and changes nothing else.
pub proof fn lemma_with_account(m: LedgerModel, a: Seq<char>)
    requires
        m.wf(),
        !m.is_registered(a),
    ensures
        m.with_account(a).wf(),
        m.with_account(a).is_registered(a),
        m.with_account(a).balance(a) == 0,
        m.with_account(a).same_elsewhere(m, set![a]),
        m.with_account(a).supply == m.supply,
{
    let r = m.with_account(a);
    assert(r.records.drop_last() =~= m.records);
    assert(r.keys_unique());
    lemma_index(r, a, m.records.len() as int);
    assert forall|k: Seq<char>| !set![a].contains(k) implies {
        &&& #[trigger] m.is_registered(k) == r.is_registered(k)
        &&& m.balance(k) == r.balance(k)
    } by {
        if m.is_registered(k) {
            lemma_index(r, k, m.index_of(k));
        }
        if r.is_registered(k) {
            lemma_index(m, k, r.index_of(k));
        }
    }
}

/// Closing an account removes its record, burns its balance, and changes
/// nothing else.
pub proof fn lemma_without_account(m: LedgerModel, a: Seq<char>)
    requires
        m.wf(),
        m.is_registered(a),
    ensures
        m.without_account(a).wf(),
        !m.without_account(a).is_registered(a),
        m.without_account(a).balance(a) == 0,
        m.without_account(a).same_elsewhere(m, set![a]),
        m.without_account(a).supply == m.supply - m.balance(a),
{
    let i = m.index_of(a);
    let r = m.without_account(a);
    lemma_index(m, a, i);
    lemma_sum_remove(m.records, i);
    assert(r.keys_unique());
    assert forall|k: Seq<char>| !set![a].contains(k) implies {
        &&& #[trigger] m.is_registered(k) == r.is_registered(k)
        &&& m.balance(k) == r.balance(k)
    } by {
        if m.is_registered(k) {
            let j = m.index_of(k);
            lemma_index(m, k, j);
            if j < i {
                lemma_index(r, k, j);
            } else {
                lemma_index(r, k, j - 1);
            }
        }
        if r.is_registered(k) {
            let j = r.index_of(k);
            if j < i {
                lemma_index(m, k, j);
            } else {
                lemma_index(m, k, j + 1);
            }
        }
    }
    if r.is_registered(a) {
        let j = r.index_of(a);
        if j < i {
            assert(m.records[j].0 == a);
        } else {
            assert(m.records[j + 1].0 == a);
        }
    }
}

} // verus!
