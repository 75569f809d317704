//! The mathematical model of the ledger.
//!
//! The ledger is specified as a state machine over [`LedgerState`]: a map from
//! client identifiers to account balances, and a map from transaction
//! identifiers to disputable deposit records. For every transaction kind this
//! module gives three spec functions: when the transition is allowed
//! (`*_allowed`), the state it produces (`*_step`), and the error it reports
//! when it is not allowed (`*_failure`). The executable engine's contracts are
//! stated over these functions, and the laws in [`crate::laws`] are proved
//! about them.

use vstd::prelude::*;
use crate::error::{InvalidReason, OpKind, PaymentError};
use crate::models::{Account, Amount, Transaction, TransactionType};

verus! {

/// The model of one client account: its balances as unbounded integers
/// (in ten-thousandths) and its lock flag.
pub struct AccountModel {
    pub available: int,
    pub held: int,
    pub locked: bool,
}

/// The model of one disputable deposit record.
pub struct DepositModel {
    pub client: u16,
    pub amount: int,
    pub disputed: bool,
}

/// The whole ledger: accounts keyed by client, deposit records keyed by
/// transaction id.
#[verifier::ext_equal]
pub struct LedgerState {
    pub accounts: Map<u16, AccountModel>,
    pub deposits: Map<u32, DepositModel>,
}

/// Whether an integer fits a signed 64-bit balance.
pub open spec fn fits_i64(x: int) -> bool {
    i64::MIN <= x <= i64::MAX
}

/// Every balance, every account's total and every recorded amount is
/// representable as a signed 64-bit count of ten-thousandths.
pub open spec fn state_bounded(s: LedgerState) -> bool {
    &&& forall|c: u16| #[trigger] s.accounts.contains_key(c) ==> {
        &&& fits_i64(s.accounts[c].available)
        &&& fits_i64(s.accounts[c].held)
        &&& fits_i64(s.accounts[c].available + s.accounts[c].held)
    }
    &&& forall|t: u32| #[trigger] s.deposits.contains_key(t) ==> fits_i64(s.deposits[t].amount)
}

/// The ledger before any transaction: no accounts, no deposit records.
pub open spec fn empty_state() -> LedgerState {
    LedgerState { accounts: Map::empty(), deposits: Map::empty() }
}

// ---------------------------------------------------------------------------
// Deposit
// ---------------------------------------------------------------------------

/// A deposit is accepted unless the client's existing account is locked.
/// A client with no account gets one, so a deposit to a fresh client always
/// succeeds.
pub open spec fn deposit_allowed(s: LedgerState, client: u16) -> bool {
    s.accounts.contains_key(client) ==> !s.accounts[client].locked
}

/// The account produced by a successful deposit: the amount is credited to an
/// existing account, or a fresh unlocked account is created holding it.
pub open spec fn deposit_account(s: LedgerState, client: u16, amount: int) -> AccountModel {
    if s.accounts.contains_key(client) {
        AccountModel {
            available: s.accounts[client].available + amount,
            held: s.accounts[client].held,
            locked: s.accounts[client].locked,
        }
    } else {
        AccountModel { available: amount, held: 0, locked: false }
    }
}

/// The state after a successful deposit. The deposit record for `tx` is
/// written unconditionally: a reused transaction id overwrites the earlier
/// record (last write wins).
pub open spec fn deposit_step(s: LedgerState, client: u16, tx: u32, amount: int) -> LedgerState {
    LedgerState {
        accounts: s.accounts.insert(client, deposit_account(s, client, amount)),
        deposits: s.deposits.insert(tx, DepositModel { client, amount, disputed: false }),
    }
}

/// The only way a deposit fails: the existing account is locked.
pub open spec fn deposit_failure(client: u16, tx: u32) -> PaymentError {
    PaymentError::LockedAccount { client, tx }
}

/// The machine-limit side condition for a deposit: the credited balance and
/// the account total must stay representable.
pub open spec fn deposit_fits(s: LedgerState, client: u16, amount: int) -> bool {
    (s.accounts.contains_key(client) && !s.accounts[client].locked) ==> {
        &&& fits_i64(s.accounts[client].available + amount)
        &&& fits_i64(s.accounts[client].available + s.accounts[client].held + amount)
    }
}

// ---------------------------------------------------------------------------
// Withdrawal
// ---------------------------------------------------------------------------

/// A withdrawal needs an existing, unlocked account with sufficient available
/// funds.
pub open spec fn withdraw_allowed(s: LedgerState, client: u16, amount: int) -> bool {
    &&& s.accounts.contains_key(client)
    &&& !s.accounts[client].locked
    &&& s.accounts[client].available >= amount
}

/// The state after a successful withdrawal: the amount leaves `available`;
/// nothing else changes. Withdrawals are never recorded as disputable.
pub open spec fn withdraw_step(s: LedgerState, client: u16, amount: int) -> LedgerState {
    LedgerState {
        accounts: s.accounts.insert(
            client,
            AccountModel {
                available: s.accounts[client].available - amount,
                held: s.accounts[client].held,
                locked: s.accounts[client].locked,
            },
        ),
        deposits: s.deposits,
    }
}

/// The error a rejected withdrawal reports, checked in this order: unknown
/// account, locked account, insufficient funds.
pub open spec fn withdraw_failure(s: LedgerState, client: u16, tx: u32, amount: Amount) -> PaymentError {
    if !s.accounts.contains_key(client) {
        PaymentError::InvalidTransaction(InvalidReason::UnknownAccount { client, tx })
    } else if s.accounts[client].locked {
        PaymentError::LockedAccount { client, tx }
    } else {
        PaymentError::InsufficientFunds {
            client,
            tx,
            available: (Amount { raw: s.accounts[client].available as i64 }),
            amount,
        }
    }
}

/// The machine-limit side condition for a withdrawal.
pub open spec fn withdraw_fits(s: LedgerState, client: u16, amount: int) -> bool {
    withdraw_allowed(s, client, amount) ==> {
        &&& fits_i64(s.accounts[client].available - amount)
        &&& fits_i64(s.accounts[client].available + s.accounts[client].held - amount)
    }
}

// ---------------------------------------------------------------------------
// Dispute
// ---------------------------------------------------------------------------

/// A dispute needs an existing, unlocked account, a deposit record for `tx`,
/// and enough available funds to freeze the recorded amount.
pub open spec fn dispute_allowed(s: LedgerState, client: u16, tx: u32) -> bool {
    &&& s.accounts.contains_key(client)
    &&& !s.accounts[client].locked
    &&& s.deposits.contains_key(tx)
    &&& s.accounts[client].available >= s.deposits[tx].amount
}

/// The state after a successful dispute: the recorded amount moves from
/// `available` to `held` and the record is flagged as disputed.
pub open spec fn dispute_step(s: LedgerState, client: u16, tx: u32) -> LedgerState {
    let amt = s.deposits[tx].amount;
    LedgerState {
        accounts: s.accounts.insert(
            client,
            AccountModel {
                available: s.accounts[client].available - amt,
                held: s.accounts[client].held + amt,
                locked: s.accounts[client].locked,
            },
        ),
        deposits: s.deposits.insert(
            tx,
            DepositModel {
                client: s.deposits[tx].client,
                amount: amt,
                disputed: true,
            },
        ),
    }
}

/// The error a rejected dispute reports, checked in this order: unknown
/// client, locked account, unknown transaction, insufficient funds.
pub open spec fn dispute_failure(s: LedgerState, client: u16, tx: u32) -> PaymentError {
    if !s.accounts.contains_key(client) {
        PaymentError::UnknownClient { client, tx, op: OpKind::Dispute }
    } else if s.accounts[client].locked {
        PaymentError::LockedAccount { client, tx }
    } else if !s.deposits.contains_key(tx) {
        PaymentError::UnknownTransaction { client, tx, op: OpKind::Dispute }
    } else {
        PaymentError::InsufficientFunds {
            client,
            tx,
            available: (Amount { raw: s.accounts[client].available as i64 }),
            amount: (Amount { raw: s.deposits[tx].amount as i64 }),
        }
    }
}

/// The machine-limit side condition for a dispute. The account total is
/// unchanged by a dispute, so only the two moved components need bounds.
pub open spec fn dispute_fits(s: LedgerState, client: u16, tx: u32) -> bool {
    dispute_allowed(s, client, tx) ==> {
        &&& fits_i64(s.accounts[client].available - s.deposits[tx].amount)
        &&& fits_i64(s.accounts[client].held + s.deposits[tx].amount)
    }
}

// ---------------------------------------------------------------------------
// Resolve
// ---------------------------------------------------------------------------

/// A resolve needs an existing, unlocked account and a deposit record for
/// `tx` that is currently disputed.
pub open spec fn resolve_allowed(s: LedgerState, client: u16, tx: u32) -> bool {
    &&& s.accounts.contains_key(client)
    &&& !s.accounts[client].locked
    &&& s.deposits.contains_key(tx)
    &&& s.deposits[tx].disputed
}

/// The state after a successful resolve: the recorded amount moves back from
/// `held` to `available` and the disputed flag is cleared.
pub open spec fn resolve_step(s: LedgerState, client: u16, tx: u32) -> LedgerState {
    let amt = s.deposits[tx].amount;
    LedgerState {
        accounts: s.accounts.insert(
            client,
            AccountModel {
                available: s.accounts[client].available + amt,
                held: s.accounts[client].held - amt,
                locked: s.accounts[client].locked,
            },
        ),
        deposits: s.deposits.insert(
            tx,
            DepositModel {
                client: s.deposits[tx].client,
                amount: amt,
                disputed: false,
            },
        ),
    }
}

/// The error a rejected resolve reports, checked in this order: unknown
/// client, locked account, unknown transaction, not disputed.
pub open spec fn resolve_failure(s: LedgerState, client: u16, tx: u32) -> PaymentError {
    if !s.accounts.contains_key(client) {
        PaymentError::UnknownClient { client, tx, op: OpKind::Resolve }
    } else if s.accounts[client].locked {
        PaymentError::LockedAccount { client, tx }
    } else if !s.deposits.contains_key(tx) {
        PaymentError::UnknownTransaction { client, tx, op: OpKind::Resolve }
    } else {
        PaymentError::InvalidTransaction(
            InvalidReason::NotDisputed { client, tx, op: OpKind::Resolve },
        )
    }
}

/// The machine-limit side condition for a resolve.
pub open spec fn resolve_fits(s: LedgerState, client: u16, tx: u32) -> bool {
    resolve_allowed(s, client, tx) ==> {
        &&& fits_i64(s.accounts[client].available + s.deposits[tx].amount)
        &&& fits_i64(s.accounts[client].held - s.deposits[tx].amount)
    }
}

// ---------------------------------------------------------------------------
// Chargeback
// ---------------------------------------------------------------------------

/// A chargeback needs exactly what a resolve needs: an existing, unlocked
/// account and a disputed deposit record for `tx`.
pub open spec fn chargeback_allowed(s: LedgerState, client: u16, tx: u32) -> bool {
    resolve_allowed(s, client, tx)
}

/// The state after a successful chargeback: the account's held funds are
/// zeroed outright (not merely reduced by the disputed amount), the account is
/// locked, and the deposit record is removed for good.
pub open spec fn chargeback_step(s: LedgerState, client: u16, tx: u32) -> LedgerState {
    LedgerState {
        accounts: s.accounts.insert(
            client,
            AccountModel {
                available: s.accounts[client].available,
                held: 0,
                locked: true,
            },
        ),
        deposits: s.deposits.remove(tx),
    }
}

/// The error a rejected chargeback reports, in the same order as a resolve.
pub open spec fn chargeback_failure(s: LedgerState, client: u16, tx: u32) -> PaymentError {
    if !s.accounts.contains_key(client) {
        PaymentError::UnknownClient { client, tx, op: OpKind::Chargeback }
    } else if s.accounts[client].locked {
        PaymentError::LockedAccount { client, tx }
    } else if !s.deposits.contains_key(tx) {
        PaymentError::UnknownTransaction { client, tx, op: OpKind::Chargeback }
    } else {
        PaymentError::InvalidTransaction(
            InvalidReason::NotDisputed { client, tx, op: OpKind::Chargeback },
        )
    }
}

// ---------------------------------------------------------------------------
// Dispatch
// ---------------------------------------------------------------------------

/// Whether the record carries an amount when its kind requires one.
pub open spec fn has_required_amount(t: Transaction) -> bool {
    match t.transaction_type {
        TransactionType::Deposit => t.amount is Some,
        TransactionType::Withdrawal => t.amount is Some,
        _ => true,
    }
}

/// Whether applying the whole record succeeds.
pub open spec fn apply_allowed(s: LedgerState, t: Transaction) -> bool {
    match t.transaction_type {
        TransactionType::Deposit => t.amount is Some && deposit_allowed(s, t.client),
        TransactionType::Withdrawal => t.amount is Some && withdraw_allowed(
            s,
            t.client,
            t.amount->Some_0@,
        ),
        TransactionType::Dispute => dispute_allowed(s, t.client, t.tx),
        TransactionType::Resolve => resolve_allowed(s, t.client, t.tx),
        TransactionType::Chargeback => chargeback_allowed(s, t.client, t.tx),
    }
}

/// The state after applying one record: the matching transition when the
/// record is accepted, the unchanged state when it is rejected.
pub open spec fn apply_step(s: LedgerState, t: Transaction) -> LedgerState {
    if apply_allowed(s, t) {
        match t.transaction_type {
            TransactionType::Deposit => deposit_step(s, t.client, t.tx, t.amount->Some_0@),
            TransactionType::Withdrawal => withdraw_step(s, t.client, t.amount->Some_0@),
            TransactionType::Dispute => dispute_step(s, t.client, t.tx),
            TransactionType::Resolve => resolve_step(s, t.client, t.tx),
            TransactionType::Chargeback => chargeback_step(s, t.client, t.tx),
        }
    } else {
        s
    }
}

/// The error a rejected record reports: a missing required amount is caught
/// first, then the dispatched transition's own failure.
pub open spec fn apply_failure(s: LedgerState, t: Transaction) -> PaymentError {
    if !has_required_amount(t) {
        PaymentError::InvalidTransaction(
            InvalidReason::MissingAmount { transaction_type: t.transaction_type, tx: t.tx },
        )
    } else {
        match t.transaction_type {
            TransactionType::Deposit => deposit_failure(t.client, t.tx),
            TransactionType::Withdrawal => withdraw_failure(s, t.client, t.tx, t.amount->Some_0),
            TransactionType::Dispute => dispute_failure(s, t.client, t.tx),
            TransactionType::Resolve => resolve_failure(s, t.client, t.tx),
            TransactionType::Chargeback => chargeback_failure(s, t.client, t.tx),
        }
    }
}

/// Whether an exported [`Account`] faithfully reports one client of the
/// ledger: the balances match the model, `total` is their sum, and the lock
/// flag agrees.
pub open spec fn snapshot_matches(s: LedgerState, a: Account) -> bool {
    &&& s.accounts.contains_key(a.client)
    &&& a.available@ == s.accounts[a.client].available
    &&& a.held@ == s.accounts[a.client].held
    &&& a.total@ == s.accounts[a.client].available + s.accounts[a.client].held
    &&& a.locked == s.accounts[a.client].locked
}

/// The machine-limit side condition for applying one record.
pub open spec fn apply_fits(s: LedgerState, t: Transaction) -> bool {
    match t.transaction_type {
        TransactionType::Deposit => t.amount matches Some(a) ==> deposit_fits(s, t.client, a@),
        TransactionType::Withdrawal => t.amount matches Some(a) ==> withdraw_fits(s, t.client, a@),
        TransactionType::Dispute => dispute_fits(s, t.client, t.tx),
        TransactionType::Resolve => resolve_fits(s, t.client, t.tx),
        TransactionType::Chargeback => true,
    }
}

} // verus!
