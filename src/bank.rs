//! The ledger engine: every account and the history of applied deposits and
//! withdrawals, changed one transaction at a time.

use vstd::prelude::*;
use std::collections::HashMap;
use crate::account::Account;
use crate::amount::Amount;
use crate::transaction::{Transaction, TransactionKind};

verus! {

broadcast use vstd::std_specs::hash::group_hash_axioms;

/// Why a transaction was refused. A refused transaction changes no balance.
#[derive(Clone, Copy, Debug, PartialEq, Eq, Structural)]
pub enum BankError {
    /// The client's account is locked by an earlier chargeback.
    AccountLocked,
    /// The transaction does not fit the history: a reused id, a missing or
    /// unexpected amount, or a reference to no recorded transaction.
    InvalidTransaction,
    /// A withdrawal of more than is available.
    InsufficientFunds,
    /// The referenced transaction belongs to another client.
    ClientMismatch,
    /// A dispute of a transaction that is neither deposit nor withdrawal.
    UnsupportedDispute,
    /// A chargeback of a transaction that is neither deposit nor withdrawal.
    UnsupportedChargeback,
    /// A balance would leave the range that an amount can hold.
    AmountOverflow,
}

/// Whether `x` fits in an amount.
pub open spec fn fits(x: int) -> bool {
    i128::MIN <= x <= i128::MAX
}

/// The account with its three balances set to `available`, `held` and
/// `total`, or `AmountOverflow` where one of them does not fit.
pub open spec fn with_balances(a: Account, available: int, held: int, total: int) -> Result<
    Account,
    BankError,
> {
    if fits(available) && fits(held) && fits(total) {
        Ok(
            Account {
                available: Amount { units: available as i128 },
                held: Amount { units: held as i128 },
                total: Amount { units: total as i128 },
                ..a
            },
        )
    } else {
        Err(BankError::AmountOverflow)
    }
}

/// A deposit: `available` and `total` grow by the amount.
pub open spec fn deposit_rule(a: Account, amount: Amount) -> Result<Account, BankError> {
    with_balances(
        a,
        a.available.units + amount.units,
        a.held.units as int,
        a.total.units + amount.units,
    )
}

/// A withdrawal: refused beyond what is available, else `available` and
/// `total` shrink by the amount.
pub open spec fn withdrawal_rule(a: Account, amount: Amount) -> Result<Account, BankError> {
    if amount.units > a.available.units {
        Err(BankError::InsufficientFunds)
    } else {
        with_balances(
            a,
            a.available.units - amount.units,
            a.held.units as int,
            a.total.units - amount.units,
        )
    }
}

/// A dispute of a deposit moves its amount from available to held; a
/// dispute of a withdrawal puts its amount back as held.
pub open spec fn dispute_rule(a: Account, referenced: TransactionKind, amount: Amount) -> Result<
    Account,
    BankError,
> {
    match referenced {
        TransactionKind::Deposit => with_balances(
            a,
            a.available.units - amount.units,
            a.held.units + amount.units,
            a.total.units as int,
        ),
        TransactionKind::Withdrawal => with_balances(
            a,
            a.available.units as int,
            a.held.units + amount.units,
            a.total.units + amount.units,
        ),
        _ => Err(BankError::UnsupportedDispute),
    }
}

/// A resolve releases the amount from held to available.
pub open spec fn resolve_rule(a: Account, amount: Amount) -> Result<Account, BankError> {
    with_balances(
        a,
        a.available.units + amount.units,
        a.held.units - amount.units,
        a.total.units as int,
    )
}

/// A chargeback of a deposit removes the held amount; of a withdrawal, it
/// returns the held amount to available. Either way the account locks.
pub open spec fn chargeback_rule(a: Account, referenced: TransactionKind, amount: Amount) -> Result<
    Account,
    BankError,
> {
    match referenced {
        TransactionKind::Deposit => match with_balances(
            a,
            a.available.units as int,
            a.held.units - amount.units,
            a.total.units - amount.units,
        ) {
            Ok(b) => Ok(Account { locked: true, ..b }),
            Err(e) => Err(e),
        },
        TransactionKind::Withdrawal => match with_balances(
            a,
            a.available.units + amount.units,
            a.held.units - amount.units,
            a.total.units as int,
        ) {
            Ok(b) => Ok(Account { locked: true, ..b }),
            Err(e) => Err(e),
        },
        _ => Err(BankError::UnsupportedChargeback),
    }
}

/// A dispute, resolve or chargeback `t` of the recorded transaction `referenced`.
pub open spec fn referenced_rule(a: Account, t: Transaction, referenced: Transaction) -> Result<
    Account,
    BankError,
> {
    if referenced.client != t.client {
        Err(BankError::ClientMismatch)
    } else {
        match (referenced.amount, t.kind) {
            (Some(amount), TransactionKind::Dispute) => dispute_rule(a, referenced.kind, amount),
            (Some(amount), TransactionKind::Resolve) => resolve_rule(a, amount),
            (Some(amount), TransactionKind::Chargeback) => chargeback_rule(
                a,
                referenced.kind,
                amount,
            ),
            _ => Err(BankError::InvalidTransaction),
        }
    }
}

/// What `t` makes of the account `a`, given the recorded history.
pub open spec fn transaction_rule(a: Account, history: Map<u32, Transaction>, t: Transaction) -> Result<
    Account,
    BankError,
> {
    if a.locked {
        Err(BankError::AccountLocked)
    } else if !history.contains_key(t.tx) {
        match (t.kind, t.amount) {
            (TransactionKind::Deposit, Some(amount)) => deposit_rule(a, amount),
            (TransactionKind::Withdrawal, Some(amount)) => withdrawal_rule(a, amount),
            _ => Err(BankError::InvalidTransaction),
        }
    } else if !t.kind.is_funding() && t.amount is None {
        referenced_rule(a, t, history[t.tx])
    } else {
        Err(BankError::InvalidTransaction)
    }
}

/// The account of `client`, or a fresh one where the client is new.
pub open spec fn account_of(accounts: Map<u16, Account>, client: u16) -> Account {
    if accounts.contains_key(client) {
        accounts[client]
    } else {
        Account::fresh(client)
    }
}

/// The accounts after `t`. The client's account exists afterwards even
/// where `t` is refused.
pub open spec fn accounts_after(
    accounts: Map<u16, Account>,
    history: Map<u32, Transaction>,
    t: Transaction,
) -> Map<u16, Account> {
    let a = account_of(accounts, t.client);
    match transaction_rule(a, history, t) {
        Ok(b) => accounts.insert(t.client, b),
        Err(_) => accounts.insert(t.client, a),
    }
}

/// The history after `t`: an applied deposit or withdrawal is recorded
/// under its id; nothing else is.
pub open spec fn history_after(
    accounts: Map<u16, Account>,
    history: Map<u32, Transaction>,
    t: Transaction,
) -> Map<u32, Transaction> {
    let a = account_of(accounts, t.client);
    if transaction_rule(a, history, t) is Ok && t.kind.is_funding() {
        history.insert(t.tx, t)
    } else {
        history
    }
}

/// What processing `t` returns.
pub open spec fn outcome(accounts: Map<u16, Account>, history: Map<u32, Transaction>, t: Transaction) -> Result<
    (),
    BankError,
> {
    match transaction_rule(account_of(accounts, t.client), history, t) {
        Ok(_) => Ok(()),
        Err(e) => Err(e),
    }
}

/// Every account is filed under its client and balanced; every recorded
/// transaction is filed under its id and is a deposit or withdrawal with an amount.
pub open spec fn ledger_wf(accounts: Map<u16, Account>, history: Map<u32, Transaction>) -> bool {
    &&& forall|c: u16| #[trigger]
        accounts.contains_key(c) ==> accounts[c].client == c && accounts[c].balanced()
    &&& forall|k: u32| #[trigger]
        history.contains_key(k) ==> history[k].tx == k && history[k].kind.is_funding()
            && history[k].amount is Some
}

/// All accounts, and the history of applied deposits and withdrawals.
pub struct Bank {
    accounts: HashMap<u16, Account>,
    transactions: HashMap<u32, Transaction>,
}

impl Bank {
    /// The accounts, by client.
    pub closed spec fn accounts_map(&self) -> Map<u16, Account> {
        self.accounts@
    }

    /// The applied deposits and withdrawals, by id.
    pub closed spec fn history(&self) -> Map<u32, Transaction> {
        self.transactions@
    }

    pub open spec fn wf(&self) -> bool {
        ledger_wf(self.accounts_map(), self.history())
    }

    pub fn new() -> (r: Bank)
        ensures
            r.wf(),
            r.accounts_map() == Map::<u16, Account>::empty(),
            r.history() == Map::<u32, Transaction>::empty(),
    {
        Bank { accounts: HashMap::new(), transactions: HashMap::new() }
    }

    /// The account of `client`, if the client has been seen.
    pub fn get_account(&self, client: &u16) -> (r: Option<&Account>)
        ensures
            r is Some <==> self.accounts_map().contains_key(*client),
            r is Some ==> *r->0 == self.accounts_map()[*client],
    {
        self.accounts.get(client)
    }

    /// Every account, by client.
    pub fn get_accounts(&self) -> (r: &HashMap<u16, Account>)
        ensures
            r@ == self.accounts_map(),
    {
        &self.accounts
    }

    /// Applies `transaction`: the client's account is created where it is
    /// new, the matching rule is applied, and an applied deposit or
    /// withdrawal is recorded. A refused transaction changes no balance.
    pub fn process_transaction(&mut self, transaction: Transaction) -> (r: Result<(), BankError>)
        requires
            old(self).wf(),
        ensures
            final(self).wf(),
            r == outcome(old(self).accounts_map(), old(self).history(), transaction),
            final(self).accounts_map() == accounts_after(
                old(self).accounts_map(),
                old(self).history(),
                transaction,
            ),
            final(self).history() == history_after(
                old(self).accounts_map(),
                old(self).history(),
                transaction,
            ),
    {
        let ghost accounts0 = self.accounts@;
        let ghost history0 = self.transactions@;
        let client = transaction.client;
        if !self.accounts.contains_key(&client) {
            self.accounts.insert(client, Account::new(client));
        }
        let account: Account = *self.accounts.get(&client).unwrap();
        assert(account == account_of(accounts0, client));

        let result = if account.locked {
            Err(BankError::AccountLocked)
        } else {
            match (self.transactions.get(&transaction.tx), transaction.kind, transaction.amount) {
                (None, TransactionKind::Deposit, Some(amount)) => Self::deposit(account, amount),
                (None, TransactionKind::Withdrawal, Some(amount)) => Self::withdrawal(
                    account,
                    amount,
                ),
                (Some(referenced), TransactionKind::Dispute, None)
                | (Some(referenced), TransactionKind::Resolve, None)
                | (Some(referenced), TransactionKind::Chargeback, None) => {
                    Self::process_referenced_transaction(account, &transaction, referenced)
                },
                _ => Err(BankError::InvalidTransaction),
            }
        };
        assert(result == transaction_rule(account, history0, transaction));

        match result {
            Ok(updated) => {
                self.accounts.insert(client, updated);
                match transaction.kind {
                    TransactionKind::Deposit | TransactionKind::Withdrawal => {
                        self.transactions.insert(transaction.tx, transaction);
                    },
                    _ => {},
                }
                proof {
                    lemma_rule_keeps_ledger_wf(accounts0, history0, transaction);
                    assert(self.accounts@ =~= accounts_after(accounts0, history0, transaction));
                }
                Ok(())
            },
            Err(e) => {
                proof {
                    assert(self.accounts@ =~= accounts_after(accounts0, history0, transaction));
                }
                Err(e)
            },
        }
    }

    fn process_referenced_transaction(
        account: Account,
        transaction: &Transaction,
        referenced: &Transaction,
    ) -> (r: Result<Account, BankError>)
        ensures
            r == referenced_rule(account, *transaction, *referenced),
    {
        if referenced.client != transaction.client {
            return Err(BankError::ClientMismatch);
        }
        match (referenced.amount, transaction.kind) {
            (Some(amount), TransactionKind::Dispute) => Self::dispute(
                account,
                referenced.kind,
                amount,
            ),
            (Some(amount), TransactionKind::Resolve) => Self::resolve(account, amount),
            (Some(amount), TransactionKind::Chargeback) => Self::chargeback(
                account,
                referenced.kind,
                amount,
            ),
            _ => Err(BankError::InvalidTransaction),
        }
    }

    fn deposit(account: Account, amount: Amount) -> (r: Result<Account, BankError>)
        ensures
            r == deposit_rule(account, amount),
    {
        match (
            account.available.units.checked_add(amount.units),
            account.total.units.checked_add(amount.units),
        ) {
            (Some(available), Some(total)) => Ok(
                Account {
                    available: Amount { units: available },
                    total: Amount { units: total },
                    ..account
                },
            ),
            _ => Err(BankError::AmountOverflow),
        }
    }

    fn withdrawal(account: Account, amount: Amount) -> (r: Result<Account, BankError>)
        ensures
            r == withdrawal_rule(account, amount),
    {
        if amount.units > account.available.units {
            return Err(BankError::InsufficientFunds);
        }
        match (
            account.available.units.checked_sub(amount.units),
            account.total.units.checked_sub(amount.units),
        ) {
            (Some(available), Some(total)) => Ok(
                Account {
                    available: Amount { units: available },
                    total: Amount { units: total },
                    ..account
                },
            ),
            _ => Err(BankError::AmountOverflow),
        }
    }

    fn dispute(account: Account, referenced: TransactionKind, amount: Amount) -> (r: Result<
        Account,
        BankError,
    >)
        ensures
            r == dispute_rule(account, referenced, amount),
    {
        match referenced {
            TransactionKind::Deposit => match (
                account.available.units.checked_sub(amount.units),
                account.held.units.checked_add(amount.units),
            ) {
                (Some(available), Some(held)) => Ok(
                    Account {
                        available: Amount { units: available },
                        held: Amount { units: held },
                        ..account
                    },
                ),
                _ => Err(BankError::AmountOverflow),
            },
            TransactionKind::Withdrawal => match (
                account.held.units.checked_add(amount.units),
                account.total.units.checked_add(amount.units),
            ) {
                (Some(held), Some(total)) => Ok(
                    Account { held: Amount { units: held }, total: Amount { units: total }, ..account },
                ),
                _ => Err(BankError::AmountOverflow),
            },
            _ => Err(BankError::UnsupportedDispute),
        }
    }

    fn resolve(account: Account, amount: Amount) -> (r: Result<Account, BankError>)
        ensures
            r == resolve_rule(account, amount),
    {
        match (
            account.available.units.checked_add(amount.units),
            account.held.units.checked_sub(amount.units),
        ) {
            (Some(available), Some(held)) => Ok(
                Account {
                    available: Amount { units: available },
                    held: Amount { units: held },
                    ..account
                },
            ),
            _ => Err(BankError::AmountOverflow),
        }
    }

    fn chargeback(account: Account, referenced: TransactionKind, amount: Amount) -> (r: Result<
        Account,
        BankError,
    >)
        ensures
            r == chargeback_rule(account, referenced, amount),
    {
        match referenced {
            TransactionKind::Deposit => match (
                account.held.units.checked_sub(amount.units),
                account.total.units.checked_sub(amount.units),
            ) {
                (Some(held), Some(total)) => Ok(
                    Account {
                        held: Amount { units: held },
                        total: Amount { units: total },
                        locked: true,
                        ..account
                    },
                ),
                _ => Err(BankError::AmountOverflow),
            },
            TransactionKind::Withdrawal => match (
                account.available.units.checked_add(amount.units),
                account.held.units.checked_sub(amount.units),
            ) {
                (Some(available), Some(held)) => Ok(
                    Account {
                        available: Amount { units: available },
                        held: Amount { units: held },
                        locked: true,
                        ..account
                    },
                ),
                _ => Err(BankError::AmountOverflow),
            },
            _ => Err(BankError::UnsupportedChargeback),
        }
    }
}

/// A transaction keeps every account balanced and every record filed under its id.
pub proof fn lemma_rule_keeps_ledger_wf(
    accounts: Map<u16, Account>,
    history: Map<u32, Transaction>,
    t: Transaction,
)
    requires
        ledger_wf(accounts, history),
    ensures
        ledger_wf(accounts_after(accounts, history, t), history_after(accounts, history, t)),
{
    let a = account_of(accounts, t.client);
    assert(a.balanced() && a.client == t.client);
    if !a.locked && history.contains_key(t.tx) {
        assert(history[t.tx].amount is Some);
    }
    match transaction_rule(a, history, t) {
        Ok(b) => {
            assert(b.balanced() && b.client == t.client);
        },
        Err(_) => {},
    }
}

} // verus!

verus! {

/// A locked account refuses every transaction with `AccountLocked`, and
/// neither the accounts nor the history change.
pub proof fn lemma_locked_account_refuses(
    accounts: Map<u16, Account>,
    history: Map<u32, Transaction>,
    t: Transaction,
)
    requires
        accounts.contains_key(t.client),
        accounts[t.client].locked,
    ensures
        outcome(accounts, history, t) == Err::<(), BankError>(BankError::AccountLocked),
        accounts_after(accounts, history, t) == accounts,
        history_after(accounts, history, t) == history,
{
    assert(accounts_after(accounts, history, t) =~= accounts);
}

/// Once locked, an account stays as it is, whatever transaction comes next.
pub proof fn lemma_locked_account_is_final(
    accounts: Map<u16, Account>,
    history: Map<u32, Transaction>,
    t: Transaction,
    client: u16,
)
    requires
        accounts.contains_key(client),
        accounts[client].locked,
    ensures
        accounts_after(accounts, history, t).contains_key(client),
        accounts_after(accounts, history, t)[client] == accounts[client],
{
    if t.client == client {
        lemma_locked_account_refuses(accounts, history, t);
    }
}

/// A deposit or withdrawal that was applied is refused when it comes a
/// second time, with `InvalidTransaction`, and changes nothing then.
pub proof fn lemma_replayed_funding_refused(
    accounts: Map<u16, Account>,
    history: Map<u32, Transaction>,
    t: Transaction,
)
    requires
        t.kind.is_funding(),
        outcome(accounts, history, t) is Ok,
    ensures
        ({
            let accounts1 = accounts_after(accounts, history, t);
            let history1 = history_after(accounts, history, t);
            &&& outcome(accounts1, history1, t) == Err::<(), BankError>(
                BankError::InvalidTransaction,
            )
            &&& accounts_after(accounts1, history1, t) == accounts1
            &&& history_after(accounts1, history1, t) == history1
        }),
{
    let accounts1 = accounts_after(accounts, history, t);
    let history1 = history_after(accounts, history, t);
    assert(!account_of(accounts1, t.client).locked);
    assert(history1.contains_key(t.tx));
    assert(accounts_after(accounts1, history1, t) =~= accounts1);
}

} // verus!
