use ledger_runtime::balances::{Pallet, TransferError};

#[test]
fn fresh_ledger_reads_zero() {
    let ledger = Pallet::new();
    assert_eq!(ledger.balance(&"alice".to_string()), 0);
    assert_eq!(ledger.balance(&"".to_string()), 0);
}

#[test]
fn set_then_read_back() {
    let mut ledger = Pallet::new();
    let alice = "alice".to_string();
    ledger.set_balance(&alice, 100);
    assert_eq!(ledger.balance(&alice), 100);
    assert_eq!(ledger.balance(&"bob".to_string()), 0);
}

#[test]
fn set_balance_overwrites() {
    let mut ledger = Pallet::new();
    let alice = "alice".to_string();
    ledger.set_balance(&alice, 100);
    ledger.set_balance(&alice, 7);
    assert_eq!(ledger.balance(&alice), 7);
}

#[test]
fn transfer_moves_and_conserves() {
    let mut ledger = Pallet::new();
    let alice = "alice".to_string();
    let bob = "bob".to_string();
    ledger.set_balance(&alice, 100);
    ledger.set_balance(&bob, 11);
    let before = ledger.balance(&alice) + ledger.balance(&bob);
    let res = ledger.transfer(alice.clone(), bob.clone(), 30);
    assert_eq!(res, Ok(()));
    assert_eq!(ledger.balance(&alice), 70);
    assert_eq!(ledger.balance(&bob), 41);
    assert_eq!(ledger.balance(&alice) + ledger.balance(&bob), before);
}

#[test]
fn transfer_insufficient_leaves_state() {
    let mut ledger = Pallet::new();
    let alice = "alice".to_string();
    let bob = "bob".to_string();
    ledger.set_balance(&alice, 50);
    let res = ledger.transfer(alice.clone(), bob.clone(), 1000);
    assert_eq!(res, Err(TransferError::InsufficientBalance));
    assert_eq!(ledger.balance(&alice), 50);
    assert_eq!(ledger.balance(&bob), 0);
}

#[test]
fn transfer_overflow_leaves_state() {
    let mut ledger = Pallet::new();
    let alice = "alice".to_string();
    let bob = "bob".to_string();
    ledger.set_balance(&alice, 5);
    ledger.set_balance(&bob, u128::MAX - 2);
    let res = ledger.transfer(alice.clone(), bob.clone(), 3);
    assert_eq!(res, Err(TransferError::Overflow));
    assert_eq!(ledger.balance(&alice), 5);
    assert_eq!(ledger.balance(&bob), u128::MAX - 2);
}

#[test]
fn transfer_to_self_keeps_balance() {
    let mut ledger = Pallet::new();
    let alice = "alice".to_string();
    ledger.set_balance(&alice, 50);
    let res = ledger.transfer(alice.clone(), alice.clone(), 50);
    assert_eq!(res, Ok(()));
    assert_eq!(ledger.balance(&alice), 50);
}

#[test]
fn transfer_to_self_never_overflows() {
    let mut ledger = Pallet::new();
    let alice = "alice".to_string();
    ledger.set_balance(&alice, u128::MAX);
    let res = ledger.transfer(alice.clone(), alice.clone(), u128::MAX);
    assert_eq!(res, Ok(()));
    assert_eq!(ledger.balance(&alice), u128::MAX);
}

#[test]
fn transfer_to_self_insufficient() {
    let mut ledger = Pallet::new();
    let alice = "alice".to_string();
    ledger.set_balance(&alice, 50);
    let res = ledger.transfer(alice.clone(), alice.clone(), 51);
    assert_eq!(res, Err(TransferError::InsufficientBalance));
    assert_eq!(ledger.balance(&alice), 50);
}

#[test]
fn transfer_of_zero_succeeds() {
    let mut ledger = Pallet::new();
    let alice = "alice".to_string();
    let bob = "bob".to_string();
    let res = ledger.transfer(alice.clone(), bob.clone(), 0);
    assert_eq!(res, Ok(()));
    assert_eq!(ledger.balance(&alice), 0);
    assert_eq!(ledger.balance(&bob), 0);
}

#[test]
fn error_messages() {
    assert_eq!(TransferError::InsufficientBalance.message(), "insufficient balance");
    assert_eq!(TransferError::Overflow.message(), "balance overflow");
}
