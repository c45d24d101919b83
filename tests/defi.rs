use fungible_token::error::LedgerError;
use fungible_token::setup::{init_defi, register_user};

const NEAR: u128 = 1_000_000_000_000_000_000_000_000;

fn root() -> String {
    "test.near".to_string()
}

fn alice() -> String {
    "alice.test.near".to_string()
}

fn defi_id() -> String {
    "defi.test.near".to_string()
}

#[test]
fn total_supply_defi() {
    let initial_balance = 100 * NEAR;
    let (ft, _, _) = init_defi(&root(), initial_balance, &alice(), &defi_id());
    assert_eq!(ft.total_supply(), initial_balance);
}

#[test]
fn transfer_to_unregistered_alice_is_refused() {
    let transfer_amount = 100 * NEAR;
    let initial_balance = 100000 * NEAR;
    let (mut ft, _, alice) = init_defi(&root(), initial_balance, &alice(), &defi_id());
    let owner = root();
    assert_eq!(
        ft.transfer(&owner, &alice, transfer_amount),
        Err(LedgerError::ReceiverNotRegistered)
    );
    assert_eq!(ft.balance_of(&owner), initial_balance);
    assert_eq!(ft.balance_of(&alice), 0);
}

#[test]
fn close_account_non_empty_balance() {
    let initial_balance = 100000 * NEAR;
    let (mut ft, _, _) = init_defi(&root(), initial_balance, &alice(), &defi_id());
    let owner = root();
    let outcome = ft.unregister(&owner, false);
    match outcome {
        Err(err) => println!("err: {}", err.message()),
        _ => panic!(),
    };
    let outcome = ft.unregister(&owner, false);
    match outcome {
        Err(err) => assert!(err
            .message()
            .contains("Can't unregister the account with the positive balance without force")),
        _ => panic!(),
    };
    assert_eq!(ft.balance_of(&owner), initial_balance);
}

#[test]
fn close_account_force_non_empty_balance() {
    let initial_balance = 100000 * NEAR;
    let (mut ft, _, _) = init_defi(&root(), initial_balance, &alice(), &defi_id());
    let owner = root();
    let outcome = ft.unregister(&owner, true);
    assert!(outcome.unwrap());
    assert_eq!(ft.total_supply(), 0);
}

#[test]
fn transfer_call_with_burned_amount() {
    let transfer_amount = 100 * NEAR;
    let initial_balance = 1000 * NEAR;
    let (mut ft, mut defi, _) = init_defi(&root(), initial_balance, &alice(), &defi_id());
    let owner = root();
    register_user(&mut ft, &defi.id.clone()).unwrap();
    let unused = ft
        .transfer_and_notify(&mut defi, &owner, &defi_id(), transfer_amount, &"10".to_string())
        .unwrap();
    let outcome = ft.unregister(&owner, true);
    assert!(outcome.unwrap());
    // The receiver kept everything but the 10 it handed back.
    assert_eq!(transfer_amount - unused, transfer_amount - 10);
    assert_eq!(ft.total_supply(), transfer_amount - 10);
    assert_eq!(ft.balance_of(&defi_id()), transfer_amount - 10);
}

#[test]
fn transfer_call_with_immediate_return_and_no_refund() {
    let transfer_amount = 100 * NEAR;
    let initial_balance = 1000 * NEAR;
    let (mut ft, mut defi, _) = init_defi(&root(), initial_balance, &alice(), &defi_id());
    let owner = root();
    register_user(&mut ft, &defi_id()).unwrap();
    let outcome = ft.transfer_and_notify(
        &mut defi,
        &owner,
        &defi_id(),
        transfer_amount,
        &"take-my-money".to_string(),
    );
    assert!(matches!(outcome, Ok(0)));
    assert_eq!(initial_balance - transfer_amount, ft.balance_of(&owner));
    assert_eq!(transfer_amount, ft.balance_of(&defi_id()));
}

#[test]
fn transfer_call_when_called_contract_not_registered_with_ft() {
    let transfer_amount = 100 * NEAR;
    let initial_balance = 1000 * NEAR;
    let (mut ft, mut defi, _) = init_defi(&root(), initial_balance, &alice(), &defi_id());
    let owner = root();
    let outcome = ft.transfer_and_notify(
        &mut defi,
        &owner,
        &defi_id(),
        transfer_amount,
        &"take-my-money".to_string(),
    );
    assert_eq!(outcome, Err(LedgerError::ReceiverNotRegistered));
    assert_eq!(initial_balance, ft.balance_of(&owner));
    assert_eq!(0, ft.balance_of(&defi_id()));
}

#[test]
fn transfer_call_with_promise_and_refund() {
    let transfer_amount = 100 * NEAR;
    let refund_amount = 50 * NEAR;
    let initial_balance = 1000 * NEAR;
    let (mut ft, mut defi, _) = init_defi(&root(), initial_balance, &alice(), &defi_id());
    let owner = root();
    register_user(&mut ft, &defi_id()).unwrap();
    let unused = ft
        .transfer_and_notify(
            &mut defi,
            &owner,
            &defi_id(),
            transfer_amount,
            &refund_amount.to_string(),
        )
        .unwrap();
    assert_eq!(unused, refund_amount);
    assert_eq!(initial_balance - transfer_amount + refund_amount, ft.balance_of(&owner));
    assert_eq!(transfer_amount - refund_amount, ft.balance_of(&defi_id()));
}

#[test]
fn transfer_call_promise_panics_for_a_full_refund() {
    let transfer_amount = 100 * NEAR;
    let initial_balance = 1000 * NEAR;
    let (mut ft, mut defi, _) = init_defi(&root(), initial_balance, &alice(), &defi_id());
    let owner = root();
    register_user(&mut ft, &defi_id()).unwrap();
    let unused = ft
        .transfer_and_notify(
            &mut defi,
            &owner,
            &defi_id(),
            transfer_amount,
            &"no parsey as integer big panic oh no".to_string(),
        )
        .unwrap();
    assert_eq!(unused, transfer_amount);
    assert_eq!(initial_balance, ft.balance_of(&owner));
    assert_eq!(0, ft.balance_of(&defi_id()));
}

#[test]
fn notify_unregistered_receiver_leaves_balances() {
    let (mut ft, mut defi, _) = init_defi(&root(), 1000, &alice(), &defi_id());
    let owner = root();
    let outcome =
        ft.transfer_and_notify(&mut defi, &owner, &defi_id(), 100, &"take-my-money".to_string());
    assert_eq!(outcome, Err(LedgerError::ReceiverNotRegistered));
    assert_eq!(ft.balance_of(&owner), 1000);
    assert_eq!(ft.balance_of(&defi_id()), 0);
    assert_eq!(ft.total_supply(), 1000);
}

#[test]
fn notify_with_half_returned() {
    let (mut ft, mut defi, _) = init_defi(&root(), 1000, &alice(), &defi_id());
    let owner = root();
    register_user(&mut ft, &defi_id()).unwrap();
    let unused = ft
        .transfer_and_notify(&mut defi, &owner, &defi_id(), 100, &"50".to_string())
        .unwrap();
    assert_eq!(unused, 50);
    assert_eq!(ft.balance_of(&owner), 950);
    assert_eq!(ft.balance_of(&defi_id()), 50);
    assert_eq!(ft.total_supply(), 1000);
}

#[test]
fn notify_with_unparsable_message_refunds_all() {
    let (mut ft, mut defi, _) = init_defi(&root(), 1000, &alice(), &defi_id());
    let owner = root();
    register_user(&mut ft, &defi_id()).unwrap();
    let unused = ft
        .transfer_and_notify(&mut defi, &owner, &defi_id(), 100, &"not a number".to_string())
        .unwrap();
    assert_eq!(unused, 100);
    assert_eq!(ft.balance_of(&owner), 1000);
    assert_eq!(ft.balance_of(&defi_id()), 0);
    assert_eq!(ft.total_supply(), 1000);
}

#[test]
fn notify_with_amount_above_transfer_refunds_all() {
    let (mut ft, mut defi, _) = init_defi(&root(), 1000, &alice(), &defi_id());
    let owner = root();
    register_user(&mut ft, &defi_id()).unwrap();
    let unused = ft
        .transfer_and_notify(&mut defi, &owner, &defi_id(), 100, &"150".to_string())
        .unwrap();
    assert_eq!(unused, 100);
    assert_eq!(ft.balance_of(&owner), 1000);
    assert_eq!(ft.balance_of(&defi_id()), 0);
}
