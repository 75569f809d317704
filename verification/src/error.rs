//! The closed set of failures a ledger transition can report.
//!
//! Every variant carries structured fields (client, transaction id, amounts)
//! rather than rendered text, so callers can branch on the kind of failure.

use vstd::prelude::*;
use crate::models::{Amount, TransactionType};

verus! {

/// The operation that a dispute-lifecycle failure refers to.
#[derive(Clone, Copy, Debug, PartialEq, Eq, Structural)]
pub enum OpKind {
    Dispute,
    Resolve,
    Chargeback,
}

/// The specific way in which a transaction was malformed or inapplicable.
#[derive(Clone, Copy, Debug, PartialEq, Eq, Structural)]
pub enum InvalidReason {
    /// A withdrawal targeted a client with no account.
    UnknownAccount { client: u16, tx: u32 },
    /// A deposit or withdrawal record came without its required amount.
    MissingAmount { transaction_type: TransactionType, tx: u32 },
    /// A resolve or chargeback targeted a deposit that is not under dispute.
    NotDisputed { client: u16, tx: u32, op: OpKind },
}

/// Why a ledger transition was rejected. A rejected transition leaves the
/// ledger exactly as it was.
#[derive(Clone, Copy, Debug, PartialEq, Eq, Structural)]
pub enum PaymentError {
    /// A mutating operation targeted an account locked by a chargeback.
    LockedAccount { client: u16, tx: u32 },
    /// A withdrawal or dispute would have driven `available` negative.
    InsufficientFunds { client: u16, tx: u32, available: Amount, amount: Amount },
    /// A dispute, resolve or chargeback named a client with no account.
    UnknownClient { client: u16, tx: u32, op: OpKind },
    /// A dispute, resolve or chargeback named a transaction with no deposit
    /// record.
    UnknownTransaction { client: u16, tx: u32, op: OpKind },
    /// The transaction was malformed or inapplicable in the way carried by
    /// [`InvalidReason`].
    InvalidTransaction(InvalidReason),
}

} // verus!
