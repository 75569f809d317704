//! Laws of the ledger, proved over the model in [`crate::state`].
//!
//! Every executable transition is tied to its model step by the contracts in
//! [`crate::engine`], so each law below holds of the running engine as well.

use vstd::prelude::*;
use crate::error::PaymentError;
use crate::models::Transaction;
use crate::state::{
    DepositModel, LedgerState, apply_allowed, apply_failure, apply_step, chargeback_allowed,
    chargeback_step, deposit_allowed, deposit_step, dispute_allowed, dispute_step,
    has_required_amount, resolve_allowed, resolve_step, withdraw_allowed, withdraw_step,
};

verus! {

/// The sum of the amounts in a run of deposits, each given as a transaction
/// id paired with an amount.
pub open spec fn sum_amounts(txs: Seq<(u32, int)>) -> int
    decreases txs.len(),
{
    if txs.len() == 0 {
        0
    } else {
        txs[0].1 + sum_amounts(txs.subrange(1, txs.len() as int))
    }
}

/// The state after a run of deposits to one client, in order.
pub open spec fn deposit_all(s: LedgerState, client: u16, txs: Seq<(u32, int)>) -> LedgerState
    decreases txs.len(),
{
    if txs.len() == 0 {
        s
    } else {
        deposit_all(deposit_step(s, client, txs[0].0, txs[0].1), client, txs.subrange(1, txs.len() as int))
    }
}

/// The client's available funds, or zero before any account exists.
pub open spec fn available_of(s: LedgerState, client: u16) -> int {
    if s.accounts.contains_key(client) {
        s.accounts[client].available
    } else {
        0
    }
}

/// The client's held funds, or zero before any account exists.
pub open spec fn held_of(s: LedgerState, client: u16) -> int {
    if s.accounts.contains_key(client) {
        s.accounts[client].held
    } else {
        0
    }
}

/// Law: a run of deposits to a client whose account is absent or unlocked is
/// accepted throughout, and leaves `available` grown by exactly the sum of
/// the deposited amounts, with `held` and the lock flag untouched.
pub proof fn lemma_deposits_add_up(s: LedgerState, client: u16, txs: Seq<(u32, int)>)
    requires
        deposit_allowed(s, client),
        txs.len() > 0,
    ensures
        ({
            let s1 = deposit_all(s, client, txs);
            &&& s1.accounts.contains_key(client)
            &&& s1.accounts[client].available == available_of(s, client) + sum_amounts(txs)
            &&& s1.accounts[client].held == held_of(s, client)
            &&& !s1.accounts[client].locked
        }),
    decreases txs.len(),
{
    let s2 = deposit_step(s, client, txs[0].0, txs[0].1);
    let rest = txs.subrange(1, txs.len() as int);
    assert(deposit_all(s, client, txs) == deposit_all(s2, client, rest));
    assert(s2.accounts.contains_key(client));
    assert(s2.accounts[client].available == available_of(s, client) + txs[0].1);
    assert(s2.accounts[client].held == held_of(s, client));
    assert(!s2.accounts[client].locked);
    if txs.len() == 1 {
        assert(rest.len() == 0);
        assert(deposit_all(s2, client, rest) == s2);
        assert(sum_amounts(rest) == 0);
    } else {
        lemma_deposits_add_up(s2, client, rest);
    }
    assert(sum_amounts(txs) == txs[0].1 + sum_amounts(rest));
}

/// Law: a withdrawal succeeds exactly when it cannot drive `available`
/// negative, and a successful one debits `available` by exactly the amount,
/// leaving `held` and the lock flag untouched.
pub proof fn lemma_withdraw_exact(s: LedgerState, client: u16, amount: int)
    ensures
        withdraw_allowed(s, client, amount) ==> withdraw_step(
            s,
            client,
            amount,
        ).accounts[client].available == s.accounts[client].available - amount,
        withdraw_allowed(s, client, amount) ==> withdraw_step(
            s,
            client,
            amount,
        ).accounts[client].available >= 0,
        withdraw_allowed(s, client, amount) ==> withdraw_step(s, client, amount).accounts[client].held
            == s.accounts[client].held,
        s.accounts.contains_key(client) && s.accounts[client].available - amount < 0
            ==> !withdraw_allowed(s, client, amount),
{
}

/// The state after applying a whole sequence of transaction records, in
/// order; rejected records leave the state unchanged.
pub open spec fn apply_all(s: LedgerState, txs: Seq<Transaction>) -> LedgerState
    decreases txs.len(),
{
    if txs.len() == 0 {
        s
    } else {
        apply_all(apply_step(s, txs[0]), txs.subrange(1, txs.len() as int))
    }
}

/// Law: applying a record leaves every account other than its client's, and
/// every deposit record other than its transaction's, untouched.
pub proof fn lemma_apply_frame(s: LedgerState, t: Transaction, client: u16, tx: u32)
    requires
        t.client != client,
        t.tx != tx,
    ensures
        apply_step(s, t).accounts.contains_key(client) == s.accounts.contains_key(client),
        s.accounts.contains_key(client) ==> apply_step(s, t).accounts[client]
            == s.accounts[client],
        apply_step(s, t).deposits.contains_key(tx) == s.deposits.contains_key(tx),
        s.deposits.contains_key(tx) ==> apply_step(s, t).deposits[tx] == s.deposits[tx],
{
}

/// Law: a whole sequence of records for other clients and other transaction
/// ids leaves this client's account and this transaction's deposit record
/// untouched.
pub proof fn lemma_apply_all_frame(s: LedgerState, txs: Seq<Transaction>, client: u16, tx: u32)
    requires
        forall|k: int|
            0 <= k < txs.len() ==> (#[trigger] txs[k]).client != client && txs[k].tx != tx,
    ensures
        apply_all(s, txs).accounts.contains_key(client) == s.accounts.contains_key(client),
        s.accounts.contains_key(client) ==> apply_all(s, txs).accounts[client]
            == s.accounts[client],
        apply_all(s, txs).deposits.contains_key(tx) == s.deposits.contains_key(tx),
        s.deposits.contains_key(tx) ==> apply_all(s, txs).deposits[tx] == s.deposits[tx],
    decreases txs.len(),
{
    if txs.len() > 0 {
        let rest = txs.subrange(1, txs.len() as int);
        assert forall|k: int|
            0 <= k < rest.len() implies (#[trigger] rest[k]).client != client && rest[k].tx
            != tx by {
            assert(rest[k] == txs[k + 1]);
        }
        lemma_apply_frame(s, txs[0], client, tx);
        lemma_apply_all_frame(apply_step(s, txs[0]), rest, client, tx);
    }
}

/// Law: a dispute followed by its resolve — with any records for other
/// clients and other transaction ids interleaved — restores `available` and
/// `held` to their pre-dispute values and clears the disputed flag.
pub proof fn lemma_dispute_resolve_round_trip(
    s: LedgerState,
    client: u16,
    tx: u32,
    others: Seq<Transaction>,
)
    requires
        dispute_allowed(s, client, tx),
        forall|k: int|
            0 <= k < others.len() ==> (#[trigger] others[k]).client != client && others[k].tx
                != tx,
    ensures
        ({
            let s1 = apply_all(dispute_step(s, client, tx), others);
            &&& resolve_allowed(s1, client, tx)
            &&& resolve_step(s1, client, tx).accounts[client] == s.accounts[client]
            &&& resolve_step(s1, client, tx).deposits[tx] == (DepositModel {
                client: s.deposits[tx].client,
                amount: s.deposits[tx].amount,
                disputed: false,
            })
        }),
{
    let sd = dispute_step(s, client, tx);
    lemma_apply_all_frame(sd, others, client, tx);
}

/// Law: a chargeback locks the account, zeroes its held funds outright,
/// keeps its available funds, and removes the deposit record for good.
pub proof fn lemma_chargeback_effects(s: LedgerState, client: u16, tx: u32)
    requires
        chargeback_allowed(s, client, tx),
    ensures
        ({
            let s1 = chargeback_step(s, client, tx);
            &&& s1.accounts.contains_key(client)
            &&& s1.accounts[client].locked
            &&& s1.accounts[client].held == 0
            &&& s1.accounts[client].available == s.accounts[client].available
            &&& !s1.deposits.contains_key(tx)
        }),
{
}

/// Law: while no deposit record exists for a transaction id, no dispute,
/// resolve or chargeback of it succeeds, and only a new deposit reusing that
/// id can recreate the record.
pub proof fn lemma_removed_tx_stays_rejected(s: LedgerState, t: Transaction, client: u16, tx: u32)
    requires
        !s.deposits.contains_key(tx),
        !(t.transaction_type is Deposit && t.tx == tx),
    ensures
        !dispute_allowed(s, client, tx),
        !resolve_allowed(s, client, tx),
        !chargeback_allowed(s, client, tx),
        !apply_step(s, t).deposits.contains_key(tx),
{
}

/// Law: once an account is locked, every later record leaves it unchanged,
/// and every well-formed record aimed at it fails with the locked-account
/// error.
pub proof fn lemma_locked_account_stays(s: LedgerState, t: Transaction, client: u16)
    requires
        s.accounts.contains_key(client),
        s.accounts[client].locked,
    ensures
        apply_step(s, t).accounts.contains_key(client),
        apply_step(s, t).accounts[client] == s.accounts[client],
        t.client == client ==> !apply_allowed(s, t),
        t.client == client && has_required_amount(t) ==> apply_failure(s, t)
            == (PaymentError::LockedAccount { client, tx: t.tx }),
{
}

/// Law: once an account is locked it stays locked and unchanged under any
/// sequence of further records.
pub proof fn lemma_locked_account_stays_forever(
    s: LedgerState,
    txs: Seq<Transaction>,
    client: u16,
)
    requires
        s.accounts.contains_key(client),
        s.accounts[client].locked,
    ensures
        apply_all(s, txs).accounts.contains_key(client),
        apply_all(s, txs).accounts[client] == s.accounts[client],
    decreases txs.len(),
{
    if txs.len() > 0 {
        lemma_locked_account_stays(s, txs[0], client);
        lemma_locked_account_stays_forever(
            apply_step(s, txs[0]),
            txs.subrange(1, txs.len() as int),
            client,
        );
    }
}

/// Law: a transaction id with no deposit record — say, one consumed by a
/// chargeback — stays unknown, and hence rejected by dispute, resolve and
/// chargeback, under any sequence of records none of which is a deposit
/// reusing that id.
pub proof fn lemma_removed_tx_stays_rejected_forever(
    s: LedgerState,
    txs: Seq<Transaction>,
    client: u16,
    tx: u32,
)
    requires
        !s.deposits.contains_key(tx),
        forall|k: int|
            0 <= k < txs.len() ==> !((#[trigger] txs[k]).transaction_type is Deposit && txs[k].tx
                == tx),
    ensures
        !apply_all(s, txs).deposits.contains_key(tx),
        !dispute_allowed(apply_all(s, txs), client, tx),
        !resolve_allowed(apply_all(s, txs), client, tx),
        !chargeback_allowed(apply_all(s, txs), client, tx),
    decreases txs.len(),
{
    if txs.len() > 0 {
        let rest = txs.subrange(1, txs.len() as int);
        assert forall|k: int|
            0 <= k < rest.len() implies !((#[trigger] rest[k]).transaction_type is Deposit
            && rest[k].tx == tx) by {
            assert(rest[k] == txs[k + 1]);
        }
        lemma_removed_tx_stays_rejected(s, txs[0], client, tx);
        lemma_removed_tx_stays_rejected_forever(apply_step(s, txs[0]), rest, client, tx);
    }
}

/// Law: a deposit reusing an existing transaction id overwrites the stored
/// deposit record — last write wins.
pub proof fn lemma_deposit_overwrites(s: LedgerState, client: u16, tx: u32, amount: int)
    ensures
        deposit_step(s, client, tx, amount).deposits.contains_key(tx),
        deposit_step(s, client, tx, amount).deposits[tx] == (DepositModel {
            client,
            amount,
            disputed: false,
        }),
{
}

} // verus!
