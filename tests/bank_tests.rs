use ledger::account::Account;
use ledger::amount::Amount;
use ledger::bank::{Bank, BankError};
use ledger::transaction::{Transaction, TransactionKind};

const CLIENT_ID: u16 = 1;
const DEPOSIT_TX: u32 = 1;
const WITHDRAWAL_TX: u32 = 2;

fn amount(s: &str) -> Amount {
    Amount::parse(s).unwrap()
}

fn validate_account(account: &Account, available: Amount, total: Amount, held: Amount) {
    assert_eq!(account.available, available);
    assert_eq!(account.total, total);
    assert_eq!(account.held, held);
}

#[test]
fn transaction_id_collision_test() {
    let mut bank = Bank::new();

    let deposit_transaction = Transaction::new_deposit(CLIENT_ID, DEPOSIT_TX, amount("1.0"));
    bank.process_transaction(deposit_transaction.clone()).unwrap();
    assert_eq!(bank.process_transaction(deposit_transaction).is_err(), true);

    let account = bank.get_account(&CLIENT_ID).unwrap();
    validate_account(&account, amount("1.0"), amount("1.0"), amount("0.0"));
}

#[test]
fn deposit_test() {
    let mut bank = Bank::new();

    let deposit_transaction = Transaction::new_deposit(CLIENT_ID, DEPOSIT_TX, amount("1.0"));
    bank.process_transaction(deposit_transaction).unwrap();

    let account = bank.get_account(&CLIENT_ID).unwrap();
    validate_account(&account, amount("1.0"), amount("1.0"), amount("0.0"));
}

#[test]
fn withdrawal_test() {
    let mut bank = Bank::new();

    let deposit_transaction = Transaction::new_deposit(CLIENT_ID, DEPOSIT_TX, amount("1.0"));
    let withdrawal_transaction =
        Transaction::new_withdrawal(CLIENT_ID, WITHDRAWAL_TX, amount("1.0"));

    bank.process_transaction(deposit_transaction).unwrap();
    bank.process_transaction(withdrawal_transaction).unwrap();

    let account = bank.get_account(&CLIENT_ID).unwrap();
    validate_account(&account, amount("0.0"), amount("0.0"), amount("0.0"));
}

#[test]
fn withdraw_to_much_test() {
    let mut bank = Bank::new();

    let deposit_transaction = Transaction::new_deposit(CLIENT_ID, WITHDRAWAL_TX, amount("1.0"));
    let withdrawal_transaction =
        Transaction::new_withdrawal(CLIENT_ID, WITHDRAWAL_TX, amount("2.0"));

    bank.process_transaction(deposit_transaction).unwrap();
    assert_eq!(bank.process_transaction(withdrawal_transaction).is_err(), true);

    let account = bank.get_account(&CLIENT_ID).unwrap();
    validate_account(&account, amount("1.0"), amount("1.0"), amount("0.0"));
}

#[test]
fn dispute_deposit_test() {
    let mut bank = Bank::new();

    let deposit_transaction = Transaction::new_deposit(CLIENT_ID, DEPOSIT_TX, amount("1.0"));
    let dispute_transaction = Transaction::new_dispute(CLIENT_ID, DEPOSIT_TX);

    bank.process_transaction(deposit_transaction).unwrap();
    bank.process_transaction(dispute_transaction).unwrap();

    let account = bank.get_account(&CLIENT_ID).unwrap();
    validate_account(&account, amount("0.0"), amount("1.0"), amount("1.0"));
}

#[test]
fn dispute_withdrawal_test() {
    let mut bank = Bank::new();

    let deposit_transaction = Transaction::new_deposit(CLIENT_ID, DEPOSIT_TX, amount("1.0"));
    let withdrawal_transaction =
        Transaction::new_withdrawal(CLIENT_ID, WITHDRAWAL_TX, amount("1.0"));
    let dispute_transaction = Transaction::new_dispute(CLIENT_ID, WITHDRAWAL_TX);

    bank.process_transaction(deposit_transaction).unwrap();
    bank.process_transaction(withdrawal_transaction).unwrap();
    bank.process_transaction(dispute_transaction).unwrap();

    let account = bank.get_account(&CLIENT_ID).unwrap();
    validate_account(&account, amount("0.0"), amount("1.0"), amount("1.0"));
}

#[test]
fn resolve_deposit_test() {
    let mut bank = Bank::new();

    let deposit_transaction = Transaction::new_deposit(CLIENT_ID, DEPOSIT_TX, amount("1.0"));
    let dispute_transaction = Transaction::new_dispute(CLIENT_ID, DEPOSIT_TX);
    let resolve_transaction = Transaction::new_resolve(CLIENT_ID, DEPOSIT_TX);

    bank.process_transaction(deposit_transaction).unwrap();
    bank.process_transaction(dispute_transaction).unwrap();
    bank.process_transaction(resolve_transaction).unwrap();

    let account = bank.get_account(&CLIENT_ID).unwrap();
    validate_account(&account, amount("1.0"), amount("1.0"), amount("0.0"));
}

#[test]
fn resolve_withdrawal_test() {
    let mut bank = Bank::new();

    let deposit_transaction = Transaction::new_deposit(CLIENT_ID, DEPOSIT_TX, amount("1.0"));
    let withdrawal_transaction =
        Transaction::new_withdrawal(CLIENT_ID, WITHDRAWAL_TX, amount("1.0"));
    let dispute_transaction = Transaction::new_dispute(CLIENT_ID, WITHDRAWAL_TX);
    let resolve_transaction = Transaction::new_resolve(CLIENT_ID, WITHDRAWAL_TX);

    bank.process_transaction(deposit_transaction).unwrap();
    bank.process_transaction(withdrawal_transaction).unwrap();
    bank.process_transaction(dispute_transaction).unwrap();
    bank.process_transaction(resolve_transaction).unwrap();

    let account = bank.get_account(&CLIENT_ID).unwrap();
    validate_account(&account, amount("1.0"), amount("1.0"), amount("0.0"));
}

#[test]
fn chargeback_deposit_test() {
    let mut bank = Bank::new();

    let deposit_transaction = Transaction::new_deposit(CLIENT_ID, DEPOSIT_TX, amount("1.0"));
    let dispute_transaction = Transaction::new_dispute(CLIENT_ID, DEPOSIT_TX);
    let chargeback_transaction = Transaction::new_chargeback(CLIENT_ID, DEPOSIT_TX);

    bank.process_transaction(deposit_transaction).unwrap();
    bank.process_transaction(dispute_transaction).unwrap();
    bank.process_transaction(chargeback_transaction).unwrap();

    let account = bank.get_account(&CLIENT_ID).unwrap();
    validate_account(&account, amount("0.0"), amount("0.0"), amount("0.0"));
}

#[test]
fn chargeback_withdrawal_test() {
    let mut bank = Bank::new();

    let deposit_transaction = Transaction::new_deposit(CLIENT_ID, DEPOSIT_TX, amount("1.0"));
    let withdrawal_transaction =
        Transaction::new_withdrawal(CLIENT_ID, WITHDRAWAL_TX, amount("1.0"));
    let dispute_transaction = Transaction::new_dispute(CLIENT_ID, WITHDRAWAL_TX);
    let chargeback_transaction = Transaction::new_chargeback(CLIENT_ID, WITHDRAWAL_TX);

    bank.process_transaction(deposit_transaction).unwrap();
    bank.process_transaction(withdrawal_transaction).unwrap();
    bank.process_transaction(dispute_transaction).unwrap();
    bank.process_transaction(chargeback_transaction).unwrap();

    let account = bank.get_account(&CLIENT_ID).unwrap();
    validate_account(&account, amount("1.0"), amount("1.0"), amount("0.0"));
}

#[test]
fn single_deposit_leaves_account_unlocked() {
    let mut bank = Bank::new();
    assert_eq!(
        bank.process_transaction(Transaction::new_deposit(1, 1, amount("1.0"))),
        Ok(())
    );
    let account = bank.get_account(&1).unwrap();
    assert_eq!(account.available, Amount { units: 10000 });
    assert_eq!(account.held, Amount { units: 0 });
    assert_eq!(account.total, Amount { units: 10000 });
    assert!(!account.locked);
}

#[test]
fn repeated_deposit_is_invalid_and_changes_nothing() {
    let mut bank = Bank::new();
    let deposit = Transaction::new_deposit(1, 1, amount("1.0"));
    bank.process_transaction(deposit).unwrap();
    assert_eq!(bank.process_transaction(deposit), Err(BankError::InvalidTransaction));
    let account = bank.get_account(&1).unwrap();
    validate_account(&account, amount("1.0"), amount("1.0"), amount("0.0"));
    assert!(!account.locked);
}

#[test]
fn overdraft_is_insufficient_funds() {
    let mut bank = Bank::new();
    bank.process_transaction(Transaction::new_deposit(1, 1, amount("1.0"))).unwrap();
    assert_eq!(
        bank.process_transaction(Transaction::new_withdrawal(1, 2, amount("2.0"))),
        Err(BankError::InsufficientFunds)
    );
    let account = bank.get_account(&1).unwrap();
    validate_account(&account, amount("1.0"), amount("1.0"), amount("0.0"));
}

#[test]
fn chargeback_locks_the_account() {
    let mut bank = Bank::new();
    bank.process_transaction(Transaction::new_deposit(1, 1, amount("1.0"))).unwrap();
    bank.process_transaction(Transaction::new_dispute(1, 1)).unwrap();
    bank.process_transaction(Transaction::new_chargeback(1, 1)).unwrap();
    let before = *bank.get_account(&1).unwrap();
    assert!(before.locked);
    validate_account(&before, amount("0.0"), amount("0.0"), amount("0.0"));
    assert_eq!(
        bank.process_transaction(Transaction::new_deposit(1, 5, amount("3.0"))),
        Err(BankError::AccountLocked)
    );
    assert_eq!(
        bank.process_transaction(Transaction::new_resolve(1, 1)),
        Err(BankError::AccountLocked)
    );
    assert_eq!(*bank.get_account(&1).unwrap(), before);
}

#[test]
fn chargeback_of_withdrawal_restores_and_locks() {
    let mut bank = Bank::new();
    bank.process_transaction(Transaction::new_deposit(1, 1, amount("1.0"))).unwrap();
    bank.process_transaction(Transaction::new_withdrawal(1, 2, amount("1.0"))).unwrap();
    bank.process_transaction(Transaction::new_dispute(1, 2)).unwrap();
    bank.process_transaction(Transaction::new_chargeback(1, 2)).unwrap();
    let account = bank.get_account(&1).unwrap();
    validate_account(&account, amount("1.0"), amount("1.0"), amount("0.0"));
    assert!(account.locked);
}

#[test]
fn dispute_of_unknown_transaction_is_invalid() {
    let mut bank = Bank::new();
    assert_eq!(
        bank.process_transaction(Transaction::new_dispute(7, 3)),
        Err(BankError::InvalidTransaction)
    );
    // the client's account is created even though the transaction was refused
    let account = bank.get_account(&7).unwrap();
    assert_eq!(account.client, 7);
    validate_account(&account, amount("0"), amount("0"), amount("0"));
    assert_eq!(bank.get_accounts().len(), 1);
}

#[test]
fn funding_without_amount_is_invalid() {
    let mut bank = Bank::new();
    let t = Transaction::new(TransactionKind::Deposit, 1, 1, Amount::parse("abc"));
    assert_eq!(bank.process_transaction(t), Err(BankError::InvalidTransaction));
    let t = Transaction::new(TransactionKind::Withdrawal, 1, 2, None);
    assert_eq!(bank.process_transaction(t), Err(BankError::InvalidTransaction));
}

#[test]
fn referencing_with_amount_is_invalid() {
    let mut bank = Bank::new();
    bank.process_transaction(Transaction::new_deposit(1, 1, amount("1.0"))).unwrap();
    let t = Transaction::new(TransactionKind::Dispute, 1, 1, Some(amount("1.0")));
    assert_eq!(bank.process_transaction(t), Err(BankError::InvalidTransaction));
}

#[test]
fn dispute_by_other_client_is_client_mismatch() {
    let mut bank = Bank::new();
    bank.process_transaction(Transaction::new_deposit(1, 1, amount("1.0"))).unwrap();
    assert_eq!(
        bank.process_transaction(Transaction::new_dispute(2, 1)),
        Err(BankError::ClientMismatch)
    );
    let account = bank.get_account(&1).unwrap();
    validate_account(&account, amount("1.0"), amount("1.0"), amount("0.0"));
}

#[test]
fn balance_beyond_range_is_overflow() {
    let mut bank = Bank::new();
    let big = Amount { units: i128::MAX };
    bank.process_transaction(Transaction::new_deposit(1, 1, big)).unwrap();
    assert_eq!(
        bank.process_transaction(Transaction::new_deposit(1, 2, Amount { units: 1 })),
        Err(BankError::AmountOverflow)
    );
    assert_eq!(bank.get_account(&1).unwrap().total, big);
}

#[test]
fn repeated_disputes_are_allowed() {
    let mut bank = Bank::new();
    bank.process_transaction(Transaction::new_deposit(1, 1, amount("2.5"))).unwrap();
    bank.process_transaction(Transaction::new_dispute(1, 1)).unwrap();
    bank.process_transaction(Transaction::new_resolve(1, 1)).unwrap();
    bank.process_transaction(Transaction::new_dispute(1, 1)).unwrap();
    let account = bank.get_account(&1).unwrap();
    validate_account(&account, amount("0"), amount("2.5"), amount("2.5"));
}

#[test]
fn balances_stay_consistent_over_a_mixed_stream() {
    let mut bank = Bank::new();
    let stream = [
        Transaction::new_deposit(1, 1, amount("3.25")),
        Transaction::new_deposit(2, 2, amount("1.5")),
        Transaction::new_withdrawal(1, 3, amount("1.0")),
        Transaction::new_dispute(1, 1),
        Transaction::new_withdrawal(1, 4, amount("9.0")),
        Transaction::new_dispute(1, 3),
        Transaction::new_resolve(1, 1),
        Transaction::new_chargeback(1, 3),
        Transaction::new_deposit(1, 5, amount("1.0")),
        Transaction::new_dispute(2, 2),
    ];
    for t in stream {
        let _ = bank.process_transaction(t);
        for account in bank.get_accounts().values() {
            assert_eq!(account.total.units, account.available.units + account.held.units);
        }
    }
    let first = bank.get_account(&1).unwrap();
    validate_account(&first, amount("3.25"), amount("3.25"), amount("0"));
    assert!(first.locked);
    let second = bank.get_account(&2).unwrap();
    validate_account(&second, amount("0"), amount("1.5"), amount("1.5"));
}
