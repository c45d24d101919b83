use fungible_token::error::LedgerError;
use fungible_token::ledger::{Ledger, StorageReceipt, MIN_STORAGE_DEPOSIT};

fn owner() -> String {
    "owner.near".to_string()
}

fn bob() -> String {
    "bob.near".to_string()
}

fn carol() -> String {
    "carol.near".to_string()
}

fn ledger_with_bob(supply: u128) -> Ledger {
    let mut l = Ledger::new(&owner(), supply);
    l.register(&bob(), MIN_STORAGE_DEPOSIT).unwrap();
    l
}

#[test]
fn minimum_deposit_is_price_times_record_size() {
    assert_eq!(Ledger::storage_balance_bounds(), 1_250_000_000_000_000_000_000);
}

#[test]
fn register_returns_excess_deposit() {
    let mut l = Ledger::new(&owner(), 10);
    let r = l.register(&bob(), MIN_STORAGE_DEPOSIT + 7).unwrap();
    assert_eq!(r, StorageReceipt { newly_registered: true, refund: 7 });
    assert!(l.is_registered(&bob()));
    assert_eq!(l.balance_of(&bob()), 0);
}

#[test]
fn register_with_short_deposit_is_refused() {
    let mut l = Ledger::new(&owner(), 10);
    assert_eq!(
        l.register(&bob(), MIN_STORAGE_DEPOSIT - 1),
        Err(LedgerError::InsufficientStorageDeposit)
    );
    assert!(!l.is_registered(&bob()));
}

#[test]
fn register_twice_keeps_balance_and_returns_deposit() {
    let mut l = ledger_with_bob(1000);
    l.transfer(&owner(), &bob(), 30).unwrap();
    let r = l.register(&bob(), 5 * MIN_STORAGE_DEPOSIT).unwrap();
    assert_eq!(r, StorageReceipt { newly_registered: false, refund: 5 * MIN_STORAGE_DEPOSIT });
    assert_eq!(l.balance_of(&bob()), 30);
    let r = l.register(&bob(), 0).unwrap();
    assert_eq!(r, StorageReceipt { newly_registered: false, refund: 0 });
    assert_eq!(l.total_supply(), 1000);
}

#[test]
fn unregister_without_force_keeps_positive_balance() {
    let mut l = ledger_with_bob(1000);
    l.transfer(&owner(), &bob(), 40).unwrap();
    assert_eq!(l.unregister(&bob(), false), Err(LedgerError::NonEmptyBalanceOnClose));
    assert_eq!(l.balance_of(&bob()), 40);
    assert_eq!(l.total_supply(), 1000);
    assert_eq!(l.unregister(&bob(), true), Ok(true));
    assert!(!l.is_registered(&bob()));
    assert_eq!(l.balance_of(&bob()), 0);
    assert_eq!(l.total_supply(), 960);
    assert_eq!(l.balance_of(&owner()), 960);
}

#[test]
fn unregister_empty_account_needs_no_force() {
    let mut l = ledger_with_bob(1000);
    assert_eq!(l.unregister(&bob(), false), Ok(true));
    assert!(!l.is_registered(&bob()));
    assert_eq!(l.total_supply(), 1000);
}

#[test]
fn unregister_unknown_account_is_refused() {
    let mut l = Ledger::new(&owner(), 1000);
    assert_eq!(l.unregister(&bob(), true), Err(LedgerError::AccountNotRegistered));
    assert_eq!(l.total_supply(), 1000);
}

#[test]
fn transfer_moves_exact_amount() {
    let mut l = ledger_with_bob(500);
    l.transfer(&owner(), &bob(), 200).unwrap();
    assert_eq!(l.balance_of(&owner()), 300);
    assert_eq!(l.balance_of(&bob()), 200);
    l.transfer(&bob(), &owner(), 200).unwrap();
    assert_eq!(l.balance_of(&owner()), 500);
    assert_eq!(l.balance_of(&bob()), 0);
    assert_eq!(l.total_supply(), 500);
}

#[test]
fn transfer_of_zero_is_refused() {
    let mut l = ledger_with_bob(500);
    assert_eq!(l.transfer(&owner(), &bob(), 0), Err(LedgerError::ZeroAmountTransfer));
}

#[test]
fn transfer_from_unregistered_sender_is_refused() {
    let mut l = ledger_with_bob(500);
    assert_eq!(l.transfer(&carol(), &bob(), 1), Err(LedgerError::SenderNotRegistered));
}

#[test]
fn transfer_to_unregistered_receiver_is_refused() {
    let mut l = ledger_with_bob(500);
    assert_eq!(l.transfer(&owner(), &carol(), 1), Err(LedgerError::ReceiverNotRegistered));
    assert_eq!(l.balance_of(&owner()), 500);
}

#[test]
fn transfer_to_self_is_refused() {
    let mut l = ledger_with_bob(500);
    assert_eq!(l.transfer(&owner(), &owner(), 1), Err(LedgerError::SelfTransfer));
}

#[test]
fn transfer_beyond_balance_is_refused() {
    let mut l = ledger_with_bob(500);
    assert_eq!(l.transfer(&owner(), &bob(), 501), Err(LedgerError::InsufficientBalance));
    assert_eq!(l.balance_of(&owner()), 500);
    assert_eq!(l.balance_of(&bob()), 0);
}

#[test]
fn transfer_of_whole_balance_at_largest_supply() {
    let mut l = ledger_with_bob(u128::MAX);
    l.transfer(&owner(), &bob(), u128::MAX).unwrap();
    assert_eq!(l.balance_of(&owner()), 0);
    assert_eq!(l.balance_of(&bob()), u128::MAX);
}

#[test]
fn supply_stays_sum_of_balances() {
    let mut l = ledger_with_bob(1000);
    l.register(&carol(), MIN_STORAGE_DEPOSIT).unwrap();
    let sum = |l: &Ledger| l.balance_of(&owner()) + l.balance_of(&bob()) + l.balance_of(&carol());
    assert_eq!(sum(&l), l.total_supply());
    l.transfer(&owner(), &bob(), 300).unwrap();
    assert_eq!(sum(&l), l.total_supply());
    l.transfer(&bob(), &carol(), 120).unwrap();
    assert_eq!(sum(&l), l.total_supply());
    let _ = l.transfer(&carol(), &bob(), 1000);
    assert_eq!(sum(&l), l.total_supply());
    l.unregister(&carol(), true).unwrap();
    assert_eq!(sum(&l), l.total_supply());
    assert_eq!(l.total_supply(), 880);
}

#[test]
fn error_messages() {
    assert_eq!(
        LedgerError::NonEmptyBalanceOnClose.message(),
        "Can't unregister the account with the positive balance without force"
    );
    assert_eq!(LedgerError::AccountNotRegistered.message(), "The account is not registered");
    assert_eq!(
        LedgerError::InsufficientBalance.message(),
        "The account doesn't have enough balance"
    );
}
