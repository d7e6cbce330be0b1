//! An in-memory payments ledger: per-client accounts with deposits,
//! withdrawals and a dispute workflow (dispute, resolve, chargeback).
//!
//! Every amount is an exact fixed-point decimal ([`money::Money`]); each
//! account keeps the invariant `total == available + held` across all
//! operations, and a charged-back account is frozen for good.

use vstd::prelude::*;

pub mod client;
pub mod ledger;
pub mod money;
pub mod transaction;

verus! {

/// Why an account operation was rejected.
#[derive(Debug, Clone, Copy, PartialEq, Eq, Structural)]
pub enum Error {
    /// The account of this client is frozen; no further operation is allowed.
    LockedAccount(u16),
    /// The client (first field) has no transaction with this id (second field).
    TransactionDoesNotExist(u16, u32),
    /// The client does not have enough available funds for the withdrawal.
    NotEnoughCredit(u16),
    /// This transaction (first field) of this client (second field) is not
    /// under dispute, so it can be neither resolved nor charged back.
    TransactionNotDisputed(u32, u16),
}

} // verus!
