//! The immutable fact an account stores about a deposit or a withdrawal:
//! its id, its amount, and whether it is currently under dispute.

use crate::money::Money;
use vstd::prelude::*;

verus! {

/// The mathematical content of a stored [`Transaction`]: the amount as an
/// unbounded integer together with the id and the dispute flag.
pub struct TransactionModel {
    pub transaction_id: u32,
    pub amount: int,
    pub disputed: bool,
}

/// A deposit or withdrawal as an account records it. The amount is stored
/// unsigned of effect: whether it credited or debited the account is decided
/// by the operation kind, not by the sign. Only the dispute flag ever changes
/// after creation.
#[derive(Debug, Clone, Copy)]
pub struct Transaction {
    transaction_id: u32,
    amount: Money,
    disputed: bool,
}

impl View for Transaction {
    type V = TransactionModel;

    closed spec fn view(&self) -> TransactionModel {
        TransactionModel {
            transaction_id: self.transaction_id,
            amount: self.amount@,
            disputed: self.disputed,
        }
    }
}

impl Transaction {
    /// A freshly recorded transaction: not under dispute.
    pub fn new(id: u32, amount: Money) -> (t: Self)
        ensures
            t@ == (TransactionModel { transaction_id: id, amount: amount@, disputed: false }),
    {
        Transaction { transaction_id: id, amount, disputed: false }
    }

    /// The recorded amount.
    pub fn get_amount(self) -> (m: Money)
        ensures
            m@ == self@.amount,
    {
        self.amount
    }

    /// Is this transaction currently under dispute?
    pub fn get_dispute_status(self) -> (b: bool)
        ensures
            b == self@.disputed,
    {
        self.disputed
    }

    /// Mark the transaction as disputed or not; nothing else changes.
    pub fn set_dispute_status(&mut self, dispute: bool)
        ensures
            final(self)@ == (TransactionModel { disputed: dispute, ..old(self)@ }),
    {
        self.disputed = dispute;
    }
}

} // verus!
