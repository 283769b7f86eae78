//! A ledger of client accounts driven by an ordered stream of deposits,
//! withdrawals, disputes, resolutions and chargebacks.

pub mod account;
pub mod amount;
pub mod transaction;
pub mod bank;
