//! A small in-memory payments ledger.
//!
//! The ledger replays a stream of client transactions (deposits, withdrawals,
//! disputes, resolves and chargebacks) against per-client account balances,
//! enforcing the usual financial invariants: a withdrawal or dispute never
//! drives the available balance negative, no operation succeeds on a locked
//! account, and only known deposits can be disputed.
//!
//! Monetary values are fixed-point decimals with four fractional digits,
//! represented by [`Amount`]. The state machine itself is [`PaymentsEngine`];
//! its behaviour is specified over the ghost model in [`state`].

use vstd::prelude::*;

pub mod engine;
pub mod error;
pub mod laws;
pub mod models;
pub mod state;

verus! {

pub use crate::engine::{Deposit, PaymentsEngine};
pub use crate::error::PaymentError;
pub use crate::models::{Account, Amount, Transaction, TransactionType};

} // verus!
