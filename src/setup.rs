//! Ledgers set up the way a deployment starts: the supply issued to its
//! owner, and the first accounts registered.
use vstd::prelude::*;
use crate::defi::DefiReceiver;
use crate::error::LedgerError;
use crate::ledger::{Ledger, MIN_STORAGE_DEPOSIT, STORAGE_PRICE_PER_BYTE, ACCOUNT_STORAGE_BYTES, StorageReceipt};
use crate::model::{LedgerModel, lemma_index};

verus! {

/// Registers `user` against a deposit that covers exactly one account record.
pub fn register_user(ledger: &mut Ledger, user: &String) -> (r: Result<StorageReceipt, LedgerError>)
    requires
        old(ledger).wf(),
    ensures
        final(ledger).wf(),
        final(ledger)@.is_registered(user@),
        old(ledger)@.is_registered(user@) ==> final(ledger)@ == old(ledger)@ && r == Ok::<
            StorageReceipt,
            LedgerError,
        >(StorageReceipt { newly_registered: false, refund: MIN_STORAGE_DEPOSIT }),
        !old(ledger)@.is_registered(user@) ==> final(ledger)@ == old(ledger)@.with_account(user@)
            && r == Ok::<StorageReceipt, LedgerError>(
            StorageReceipt { newly_registered: true, refund: 0 },
        ),
{
    ledger.register(user, STORAGE_PRICE_PER_BYTE * ACCOUNT_STORAGE_BYTES)
}

/// A ledger whose owner `root_id` holds `initial_balance`, with the account
/// `alice_id` registered beside it.
pub fn init_no_defi(root_id: &String, initial_balance: u128, alice_id: &String) -> (r: (
    Ledger,
    String,
))
    ensures
        r.0.wf(),
        r.1@ == alice_id@,
        alice_id@ != root_id@ ==> r.0@ == LedgerModel::issued(root_id@, initial_balance as nat).with_account(
            alice_id@,
        ),
        alice_id@ == root_id@ ==> r.0@ == LedgerModel::issued(root_id@, initial_balance as nat),
        r.0@.balance(root_id@) == initial_balance,
        r.0@.is_registered(alice_id@),
        r.0@.supply == initial_balance,
{
    let mut ledger = Ledger::new(root_id, initial_balance);
    let _ = register_user(&mut ledger, alice_id);
    proof {
        let m = LedgerModel::issued(root_id@, initial_balance as nat);
        lemma_index(m, root_id@, 0);
        if alice_id@ != root_id@ {
            ledger.lemma_supply_is_sum();
            lemma_index(ledger@, root_id@, 0);
        }
    }
    (ledger, alice_id.clone())
}

/// A ledger whose owner `root_id` holds `initial_balance`, the receiver
/// contract deployed under `defi_id` (not yet registered with the ledger), and
/// the account `alice_id`, not registered either.
pub fn init_defi(
    root_id: &String,
    initial_balance: u128,
    alice_id: &String,
    defi_id: &String,
) -> (r: (Ledger, DefiReceiver, String))
    ensures
        r.0.wf(),
        r.0@ == LedgerModel::issued(root_id@, initial_balance as nat),
        r.0@.balance(root_id@) == initial_balance,
        r.0@.supply == initial_balance,
        r.1.id@ == defi_id@,
        r.2@ == alice_id@,
{
    let ledger = Ledger::new(root_id, initial_balance);
    let defi = DefiReceiver::new(defi_id);
    (ledger, defi, alice_id.clone())
}

} // verus!
