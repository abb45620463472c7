use txk::account::{Account, AccountUpdateError, DepositState};
use txk::funds::{Funds, FundsOpError, MAX_MANTISSA};

#[test]
fn test_deposit() {
    let mut account = Account::new(42);
    account
        .deposit(1, Funds::new(15, 1))
        .expect("Deposit to succeed");
    assert_eq!(account.balance().available(), Funds::new(15, 1));
}

#[test]
fn test_negative_deposit() {
    let mut account = Account::new(42);
    assert_eq!(
        account.deposit(1, Funds::new(-15, 1)),
        Err(AccountUpdateError::NegativeDeposit),
    );
    assert_eq!(account.balance().available(), Funds::new(0, 0));
}

#[test]
fn test_withdrawal() {
    let mut account = Account::new(42);
    account
        .deposit(1, Funds::new(15, 1))
        .expect("Deposit to succeed");
    account
        .withdraw(Funds::new(10, 1))
        .expect("Withrawal to succeed");
    assert_eq!(account.balance().available(), Funds::new(5, 1));
}

#[test]
fn negative_withdrawal() {
    let mut account = Account::new(42);
    account
        .deposit(1, Funds::new(15, 1))
        .expect("Deposit to succeed");
    assert_eq!(
        account.withdraw(Funds::new(-10, 1)),
        Err(AccountUpdateError::NegativeWithdrawal),
    );
    assert_eq!(account.balance().available(), Funds::new(15, 1));
}

#[test]
fn test_withdrawal_insufficient_funds() {
    let mut account = Account::new(42);
    assert_eq!(
        account.withdraw(Funds::new(15, 1)),
        Err(AccountUpdateError::InsufficientFunds),
    );
}

#[test]
fn test_dispute() {
    let mut account = Account::new(42);
    account
        .deposit(1, Funds::new(15, 1))
        .expect("Deposit to succeed");
    assert_eq!(
        account.deposit_state(1),
        Some(DepositState::Undisputed(Funds::new(15, 1)))
    );

    account.dispute(1).expect("Dispute to succeed");
    assert_eq!(
        account.deposit_state(1),
        Some(DepositState::InDispute(Funds::new(15, 1)))
    );
    assert_eq!(account.balance().available(), Funds::new(0, 1));
    assert_eq!(account.balance().held(), Funds::new(15, 1));
}

#[test]
fn test_invalid_dispute_non_existent_transaction() {
    let mut account = Account::new(42);
    assert_eq!(
        account.dispute(1),
        Err(AccountUpdateError::TransactionNotDisputable(1))
    );
}

#[test]
fn test_resolve() {
    let mut account = Account::new(42);
    account
        .deposit(1, Funds::new(15, 1))
        .expect("Deposit to succeed");
    assert_eq!(
        account.deposit_state(1),
        Some(DepositState::Undisputed(Funds::new(15, 1)))
    );

    account.dispute(1).expect("Dispute to succeed");
    account.resolve(1).expect("Resolve to succeed");
    assert_eq!(account.deposit_state(1), Some(DepositState::Resolved));
    assert_eq!(account.balance().available(), Funds::new(15, 1));
    assert_eq!(account.balance().held(), Funds::new(0, 1));
}

#[test]
fn test_resolve_not_in_dispute() {
    let mut account = Account::new(42);
    account
        .deposit(1, Funds::new(15, 1))
        .expect("Deposit to succeed");
    assert_eq!(
        account.deposit_state(1),
        Some(DepositState::Undisputed(Funds::new(15, 1)))
    );

    assert_eq!(
        account.resolve(1),
        Err(AccountUpdateError::TransactionNotInDispute(1)),
    );
    assert_eq!(
        account.deposit_state(1),
        Some(DepositState::Undisputed(Funds::new(15, 1)))
    );
}

#[test]
fn test_chargeback() {
    let mut account = Account::new(42);
    account
        .deposit(1, Funds::new(15, 1))
        .expect("Deposit to succeed");
    assert_eq!(
        account.deposit_state(1),
        Some(DepositState::Undisputed(Funds::new(15, 1)))
    );

    account.dispute(1).expect("Dispute to succeed");
    account.chargeback(1).expect("Chargeback to succeed");
    assert_eq!(account.deposit_state(1), Some(DepositState::Chargedback));
    assert_eq!(account.balance().available(), Funds::new(0, 1));
    assert_eq!(account.balance().held(), Funds::new(0, 1));
    assert!(account.is_frozen());
}

#[test]
fn test_withdraw_from_frozen_account_fails() {
    let mut account = Account::new(42);
    account
        .deposit(1, Funds::new(15, 1))
        .expect("Deposit to succeed");
    // Make sure we have sufficient funds for potential withdrawal
    account
        .deposit(2, Funds::new(30, 1))
        .expect("Deposit to succeed");

    account.dispute(1).expect("Dispute to succeed");
    account.chargeback(1).expect("Chargeback to succeed");
    assert_eq!(
        account.withdraw(Funds::new(10, 1)),
        Err(AccountUpdateError::AccountIsFrozen),
    );
}

#[test]
fn test_deposit_into_frozen_account_succeeds() {
    let mut account = Account::new(42);
    account
        .deposit(1, Funds::new(15, 1))
        .expect("Deposit to succeed");

    account.dispute(1).expect("Dispute to succeed");
    account.chargeback(1).expect("Chargeback to succeed");
    account
        .deposit(2, Funds::new(10, 1))
        .expect("Deposit to succeed");
}

#[test]
fn test_chargeback_not_in_dispute() {
    let mut account = Account::new(42);
    account
        .deposit(1, Funds::new(15, 1))
        .expect("Deposit to succeed");
    assert_eq!(
        account.deposit_state(1),
        Some(DepositState::Undisputed(Funds::new(15, 1)))
    );

    assert_eq!(
        account.chargeback(1),
        Err(AccountUpdateError::TransactionNotInDispute(1)),
    );
    assert_eq!(
        account.deposit_state(1),
        Some(DepositState::Undisputed(Funds::new(15, 1)))
    );
}

#[test]
fn deposit_then_withdraw_restores_available() {
    let mut account = Account::new(7);
    account.deposit(1, Funds::new(2, 0)).expect("Deposit to succeed");
    account.deposit(2, Funds::new(1234, 3)).expect("Deposit to succeed");
    account.withdraw(Funds::new(1234, 3)).expect("Withdrawal to succeed");
    assert_eq!(account.balance().available(), Funds::new(2, 0));
    assert_eq!(account.balance().held(), Funds::new(0, 0));
}

#[test]
fn dispute_then_resolve_restores_balance() {
    let mut account = Account::new(7);
    account.deposit(1, Funds::new(5, 0)).expect("Deposit to succeed");
    account.deposit(2, Funds::new(225, 2)).expect("Deposit to succeed");
    account.dispute(2).expect("Dispute to succeed");
    assert_eq!(account.balance().available(), Funds::new(5, 0));
    assert_eq!(account.balance().held(), Funds::new(225, 2));
    account.resolve(2).expect("Resolve to succeed");
    assert_eq!(account.balance().available(), Funds::new(725, 2));
    assert_eq!(account.balance().held(), Funds::new(0, 0));
    assert!(!account.is_frozen());
}

#[test]
fn resolved_and_charged_back_deposits_are_final() {
    let mut account = Account::new(7);
    account.deposit(1, Funds::new(1, 0)).expect("Deposit to succeed");
    account.deposit(2, Funds::new(1, 0)).expect("Deposit to succeed");
    account.dispute(1).expect("Dispute to succeed");
    account.resolve(1).expect("Resolve to succeed");
    assert_eq!(account.dispute(1), Err(AccountUpdateError::TransactionNotDisputable(1)));
    assert_eq!(account.resolve(1), Err(AccountUpdateError::TransactionNotInDispute(1)));
    account.dispute(2).expect("Dispute to succeed");
    account.chargeback(2).expect("Chargeback to succeed");
    assert_eq!(account.dispute(2), Err(AccountUpdateError::TransactionNotDisputable(2)));
    assert_eq!(account.chargeback(2), Err(AccountUpdateError::TransactionNotInDispute(2)));
    assert_eq!(account.balance().available(), Funds::new(1, 0));
    assert_eq!(account.balance().held(), Funds::new(0, 0));
}

#[test]
fn dispute_twice_fails() {
    let mut account = Account::new(7);
    account.deposit(1, Funds::new(15, 1)).expect("Deposit to succeed");
    account.dispute(1).expect("Dispute to succeed");
    assert_eq!(account.dispute(1), Err(AccountUpdateError::TransactionNotDisputable(1)));
    assert_eq!(account.balance().available(), Funds::new(0, 0));
    assert_eq!(account.balance().held(), Funds::new(15, 1));
}

#[test]
fn resolve_unknown_transaction_keeps_balance() {
    let mut account = Account::new(7);
    account.deposit(1, Funds::new(15, 1)).expect("Deposit to succeed");
    assert_eq!(account.resolve(9), Err(AccountUpdateError::TransactionNotInDispute(9)));
    assert_eq!(account.chargeback(9), Err(AccountUpdateError::TransactionNotInDispute(9)));
    assert_eq!(account.balance().available(), Funds::new(15, 1));
    assert_eq!(account.balance().held(), Funds::new(0, 0));
    assert!(!account.is_frozen());
}

#[test]
fn repeated_deposit_id_is_refused() {
    let mut account = Account::new(7);
    account.deposit(1, Funds::new(15, 1)).expect("Deposit to succeed");
    assert_eq!(
        account.deposit(1, Funds::new(3, 0)),
        Err(AccountUpdateError::DepositAlreadyProcessed(1))
    );
    assert_eq!(account.balance().available(), Funds::new(15, 1));
}

#[test]
fn overflowing_deposit_keeps_account() {
    let mut account = Account::new(7);
    account.deposit(1, Funds::new(MAX_MANTISSA, 0)).expect("Deposit to succeed");
    assert_eq!(
        account.deposit(2, Funds::new(1, 0)),
        Err(AccountUpdateError::BalanceError(FundsOpError::Overflow))
    );
    assert_eq!(account.balance().available(), Funds::new(MAX_MANTISSA, 0));
    assert_eq!(account.deposit_state(2), None);
}

#[test]
fn scenario_deposit_withdraw_dispute_chargeback() {
    let mut account = Account::new(1);
    account.deposit(1, Funds::new(15, 1)).expect("Deposit to succeed");
    assert_eq!(account.balance().available(), Funds::new(15, 1));
    assert_eq!(account.balance().held(), Funds::new(0, 0));
    account.withdraw(Funds::new(10, 1)).expect("Withdrawal to succeed");
    assert_eq!(account.balance().available(), Funds::new(5, 1));
    account.dispute(1).expect("Dispute to succeed");
    assert_eq!(account.balance().available(), Funds::new(-10, 1));
    assert_eq!(account.balance().held(), Funds::new(15, 1));
    account.chargeback(1).expect("Chargeback to succeed");
    assert_eq!(account.balance().held(), Funds::new(0, 0));
    assert!(account.is_frozen());
    assert_eq!(
        account.withdraw(Funds::new(1, 1)),
        Err(AccountUpdateError::AccountIsFrozen)
    );
}

#[test]
fn negative_deposit_leaves_zero_balance() {
    let mut account = Account::new(1);
    assert_eq!(
        account.deposit(1, Funds::new(-15, 1)),
        Err(AccountUpdateError::NegativeDeposit)
    );
    assert_eq!(account.balance().available(), Funds::new(0, 0));
    assert_eq!(account.balance().held(), Funds::new(0, 0));
    assert_eq!(account.deposit_state(1), None);
}

#[test]
fn snapshot_rounds_to_four_digits() {
    let mut account = Account::new(3);
    account.deposit(1, Funds::new(123456, 5)).expect("Deposit to succeed");
    account.deposit(2, Funds::new(100005, 5)).expect("Deposit to succeed");
    account.dispute(2).expect("Dispute to succeed");
    let snap = account.snapshot().expect("Snapshot to succeed");
    assert_eq!(snap.client, 3);
    assert_eq!(snap.available.mantissa(), 12346);
    assert_eq!(snap.available.scale(), 4);
    assert_eq!(snap.held.mantissa(), 10000);
    assert_eq!(snap.held.scale(), 4);
    assert_eq!(snap.total, Funds::new(22346, 4));
    assert!(!snap.locked);
}

#[test]
fn snapshot_of_overflowing_total_fails() {
    let mut account = Account::new(4);
    account.deposit(1, Funds::new(MAX_MANTISSA, 0)).expect("Deposit to succeed");
    account.dispute(1).expect("Dispute to succeed");
    account.deposit(2, Funds::new(MAX_MANTISSA, 0)).expect("Deposit to succeed");
    assert_eq!(account.snapshot(), Err(FundsOpError::Overflow));
}
