use kitties::ledger::{Ledger, LedgerError};

#[test]
fn reserve_moves_free_to_reserved_or_fails() {
    let mut l = Ledger::new();
    l.set_balance(1, 100);
    assert_eq!(l.reserve(1, 40), Ok(()));
    assert_eq!(l.free_balance(1), 60);
    assert_eq!(l.reserved_balance(1), 40);
    assert_eq!(l.reserve(1, 61), Err(LedgerError::InsufficientBalance));
    assert_eq!(l.free_balance(1), 60);
}

#[test]
fn unreserve_is_best_effort() {
    let mut l = Ledger::new();
    l.set_balance(1, 100);
    assert_eq!(l.reserve(1, 30), Ok(()));
    l.unreserve(1, 50);
    assert_eq!(l.free_balance(1), 100);
    assert_eq!(l.reserved_balance(1), 0);
    l.unreserve(2, 10);
    assert_eq!(l.free_balance(2), 0);
}

#[test]
fn transfer_pays_between_accounts() {
    let mut l = Ledger::new();
    l.set_balance(1, 100);
    assert_eq!(l.transfer(1, 2, 70, false), Ok(()));
    assert_eq!(l.free_balance(1), 30);
    assert_eq!(l.free_balance(2), 70);
    assert_eq!(l.transfer(1, 2, 31, false), Err(LedgerError::InsufficientBalance));
}

#[test]
fn keep_alive_refuses_to_empty_the_payer() {
    let mut l = Ledger::new();
    l.set_balance(1, 100);
    assert_eq!(l.transfer(1, 2, 100, true), Err(LedgerError::InsufficientBalance));
    assert_eq!(l.transfer(1, 2, 99, true), Ok(()));
    assert_eq!(l.free_balance(1), 1);
    assert_eq!(l.transfer(1, 2, 1, false), Ok(()));
    assert_eq!(l.free_balance(1), 0);
}

#[test]
fn transfer_to_oneself_changes_nothing() {
    let mut l = Ledger::new();
    l.set_balance(1, 100);
    assert_eq!(l.transfer(1, 1, 40, false), Ok(()));
    assert_eq!(l.free_balance(1), 100);
}

#[test]
fn transfer_refuses_an_overflowing_receiver() {
    let mut l = Ledger::new();
    l.set_balance(1, 100);
    l.set_balance(2, u64::MAX - 10);
    assert_eq!(l.transfer(1, 2, 11, false), Err(LedgerError::InsufficientBalance));
    assert_eq!(l.transfer(1, 2, 10, false), Ok(()));
    assert_eq!(l.free_balance(2), u64::MAX);
}
