//! Transaction records: one instruction each, not yet checked against the ledger.

use vstd::prelude::*;
use crate::amount::Amount;

verus! {

/// What a transaction asks for.
#[derive(Clone, Copy, Debug, PartialEq, Eq, Structural)]
pub enum TransactionKind {
    Deposit,
    Withdrawal,
    Dispute,
    Resolve,
    Chargeback,
}

impl TransactionKind {
    /// Deposits and withdrawals move money and may be referenced later.
    pub open spec fn is_funding(self) -> bool {
        self is Deposit || self is Withdrawal
    }
}

/// One instruction: a funding transaction carries an amount, a referencing
/// one names by `tx` the funding transaction that it concerns.
#[derive(Clone, Copy, Debug, PartialEq, Eq)]
pub struct Transaction {
    pub kind: TransactionKind,
    pub client: u16,
    pub tx: u32,
    pub amount: Option<Amount>,
}

impl Transaction {
    pub fn new(kind: TransactionKind, client: u16, tx: u32, amount: Option<Amount>) -> (r: Self)
        ensures
            r == (Transaction { kind, client, tx, amount }),
    {
        Transaction { kind, client, tx, amount }
    }

    pub fn new_deposit(client: u16, tx: u32, amount: Amount) -> (r: Self)
        ensures
            r == (Transaction { kind: TransactionKind::Deposit, client, tx, amount: Some(amount) }),
    {
        Transaction { kind: TransactionKind::Deposit, client, tx, amount: Some(amount) }
    }

    pub fn new_withdrawal(client: u16, tx: u32, amount: Amount) -> (r: Self)
        ensures
            r == (Transaction {
                kind: TransactionKind::Withdrawal,
                client,
                tx,
                amount: Some(amount),
            }),
    {
        Transaction { kind: TransactionKind::Withdrawal, client, tx, amount: Some(amount) }
    }

    pub fn new_dispute(client: u16, tx: u32) -> (r: Self)
        ensures
            r == (Transaction { kind: TransactionKind::Dispute, client, tx, amount: None }),
    {
        Transaction { kind: TransactionKind::Dispute, client, tx, amount: None }
    }

    pub fn new_resolve(client: u16, tx: u32) -> (r: Self)
        ensures
            r == (Transaction { kind: TransactionKind::Resolve, client, tx, amount: None }),
    {
        Transaction { kind: TransactionKind::Resolve, client, tx, amount: None }
    }

    pub fn new_chargeback(client: u16, tx: u32) -> (r: Self)
        ensures
            r == (Transaction { kind: TransactionKind::Chargeback, client, tx, amount: None }),
    {
        Transaction { kind: TransactionKind::Chargeback, client, tx, amount: None }
    }
}

} // verus!
