//! The balances of one client.

use vstd::prelude::*;
use crate::amount::Amount;

verus! {

/// A client's funds: `available` can be spent, `held` is frozen by disputes,
/// and `total` is their sum. A locked account takes no more transactions.
#[derive(Clone, Copy, Debug, PartialEq, Eq, Structural)]
pub struct Account {
    pub client: u16,
    pub available: Amount,
    pub held: Amount,
    pub total: Amount,
    pub locked: bool,
}

impl Account {
    /// `total == available + held`.
    pub open spec fn balanced(self) -> bool {
        self.total.units == self.available.units + self.held.units
    }

    /// The account that a client has before any transaction.
    pub open spec fn fresh(client: u16) -> Account {
        Account {
            client,
            available: Amount { units: 0 },
            held: Amount { units: 0 },
            total: Amount { units: 0 },
            locked: false,
        }
    }

    pub fn new(client: u16) -> (r: Account)
        ensures
            r == Account::fresh(client),
    {
        Account {
            client,
            available: Amount { units: 0 },
            held: Amount { units: 0 },
            total: Amount { units: 0 },
            locked: false,
        }
    }
}

} // verus!
