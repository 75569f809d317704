//! The executable ledger state machine.
//!
//! [`PaymentsEngine`] holds the two mappings of the model — accounts keyed by
//! client and disputable deposit records keyed by transaction id — and one
//! transition method per transaction kind, plus the generic [`PaymentsEngine::execute`]
//! entry point and the snapshot query [`PaymentsEngine::accounts`]. Every
//! method's contract is stated over the ghost model in [`crate::state`]: a
//! successful call performs exactly the model's transition, and a failed call
//! reports the model's error and leaves the state untouched.

use vstd::prelude::*;
use std::collections::HashMap;
use crate::error::{InvalidReason, OpKind, PaymentError};
use crate::models::{Account, Amount, Transaction, TransactionType};
use crate::state::{
    AccountModel, DepositModel, LedgerState, apply_allowed, apply_failure, apply_fits, apply_step,
    chargeback_allowed, chargeback_failure, chargeback_step, deposit_allowed,
    deposit_failure, deposit_fits, deposit_step, dispute_allowed, dispute_failure, dispute_fits,
    dispute_step, empty_state, fits_i64, resolve_allowed, resolve_failure, resolve_fits,
    resolve_step, snapshot_matches, state_bounded, withdraw_allowed, withdraw_failure,
    withdraw_fits, withdraw_step,
};

verus! {

broadcast use vstd::std_specs::hash::group_hash_axioms;

/// The stored state of one client account.
#[derive(Clone, Copy, Debug, PartialEq)]
struct SparseAccount {
    available: i64,
    held: i64,
    locked: bool,
}

impl View for SparseAccount {
    type V = AccountModel;

    closed spec fn view(&self) -> AccountModel {
        AccountModel {
            available: self.available as int,
            held: self.held as int,
            locked: self.locked,
        }
    }
}

impl SparseAccount {
    /// Rejects any mutating operation on a locked account.
    fn assert_not_locked(&self, client: u16, tx: u32) -> (r: Result<(), PaymentError>)
        ensures
            r is Ok <==> !self.locked,
            r matches Err(e) ==> e == (PaymentError::LockedAccount { client, tx }),
    {
        if self.locked {
            Err(PaymentError::LockedAccount { client, tx })
        } else {
            Ok(())
        }
    }
}

/// A deposit that may later be disputed: the owning client, the original
/// amount, and whether a dispute is currently open against it.
#[derive(Clone, Copy, Debug, PartialEq, Eq, Structural)]
pub struct Deposit {
    /// The client the deposit was credited to.
    pub client: u16,
    /// The deposited amount.
    pub amount: Amount,
    /// True while a dispute against this deposit is open.
    pub disputed: bool,
}

impl View for Deposit {
    type V = DepositModel;

    open spec fn view(&self) -> DepositModel {
        DepositModel { client: self.client, amount: self.amount@, disputed: self.disputed }
    }
}

/// A transition writes at most one account (for `client`) and one deposit
/// record (for `tx`); if the written entries are bounded, boundedness of the
/// whole state carries over.
proof fn lemma_bounded_after_step(s0: LedgerState, s1: LedgerState, client: u16, tx: u32)
    requires
        state_bounded(s0),
        forall|c: u16|
            #[trigger] s1.accounts.contains_key(c) && c != client ==> s0.accounts.contains_key(c)
                && s1.accounts[c] == s0.accounts[c],
        s1.accounts.contains_key(client) ==> fits_i64(s1.accounts[client].available) && fits_i64(
            s1.accounts[client].held,
        ) && fits_i64(s1.accounts[client].available + s1.accounts[client].held),
        forall|t: u32|
            #[trigger] s1.deposits.contains_key(t) && t != tx ==> s0.deposits.contains_key(t)
                && s1.deposits[t] == s0.deposits[t],
        s1.deposits.contains_key(tx) ==> fits_i64(s1.deposits[tx].amount),
    ensures
        state_bounded(s1),
{
}

/// The client list stays in step with the account map across a transition
/// that writes the entry for `client`: unchanged when the client already had
/// an account, extended by the new client otherwise.
proof fn lemma_clients_in_step(pre: PaymentsEngine, post: PaymentsEngine, client: u16)
    requires
        pre.clients@.no_duplicates(),
        forall|c: u16|
            #![trigger pre.clients@.contains(c)]
            #![trigger pre.accounts@.contains_key(c)]
            pre.clients@.contains(c) <==> pre.accounts@.contains_key(c),
        forall|c: u16| #[trigger]
            post.accounts@.contains_key(c) <==> (c == client || pre.accounts@.contains_key(c)),
        pre.accounts@.contains_key(client) ==> post.clients@ == pre.clients@,
        !pre.accounts@.contains_key(client) ==> post.clients@ == pre.clients@.push(client),
    ensures
        post.clients@.no_duplicates(),
        forall|c: u16|
            #![trigger post.clients@.contains(c)]
            #![trigger post.accounts@.contains_key(c)]
            post.clients@.contains(c) <==> post.accounts@.contains_key(c),
{
    if pre.accounts@.contains_key(client) {
        assert forall|c: u16|
            post.clients@.contains(c) <==> post.accounts@.contains_key(c) by {
            assert(pre.clients@.contains(c) <==> pre.accounts@.contains_key(c));
        }
    } else {
        assert(!pre.clients@.contains(client));
        assert forall|i: int, j: int|
            0 <= i < post.clients@.len() && 0 <= j < post.clients@.len() && i != j implies post.clients@[i]
            != post.clients@[j] by {
            if i < pre.clients@.len() && j < pre.clients@.len() {
            } else if j == pre.clients@.len() {
                assert(post.clients@[j] == client);
                assert(pre.clients@.contains(pre.clients@[i]));
            } else {
                assert(post.clients@[i] == client);
                assert(pre.clients@.contains(pre.clients@[j]));
            }
        }
        assert forall|c: u16|
            post.clients@.contains(c) <==> post.accounts@.contains_key(c) by {
            assert(pre.clients@.contains(c) <==> pre.accounts@.contains_key(c));
            if c == client {
                assert(post.clients@[pre.clients@.len() as int] == client);
                assert(post.clients@.contains(client));
            } else {
                assert(post.clients@.contains(c) <==> pre.clients@.contains(c)) by {
                    if post.clients@.contains(c) {
                        let i = choose|i: int|
                            0 <= i < post.clients@.len() && post.clients@[i] == c;
                        assert(i < pre.clients@.len());
                        assert(pre.clients@[i] == c);
                    } else {
                        if pre.clients@.contains(c) {
                            let i = choose|i: int|
                                0 <= i < pre.clients@.len() && pre.clients@[i] == c;
                            assert(post.clients@[i] == c);
                        }
                    }
                }
            }
        }
    }
}

/// The ledger state machine: per-client accounts and the dispute ledger of
/// past deposits. One instance replays one transaction stream from an empty
/// initial state; instances share nothing.
pub struct PaymentsEngine {
    accounts: HashMap<u16, SparseAccount>,
    deposits: HashMap<u32, Deposit>,
    /// Client identifiers in order of first deposit; drives the snapshot
    /// query. Mirrors the key set of `accounts`.
    clients: Vec<u16>,
}

impl View for PaymentsEngine {
    type V = LedgerState;

    closed spec fn view(&self) -> LedgerState {
        LedgerState {
            accounts: self.accounts@.map_values(|a: SparseAccount| a@),
            deposits: self.deposits@.map_values(|d: Deposit| d@),
        }
    }
}

impl PaymentsEngine {
    /// All balances representable, and the client list in step with the
    /// account map: no duplicates, and exactly the accounts' key set.
    pub closed spec fn wf(&self) -> bool {
        &&& state_bounded(self@)
        &&& self.clients@.no_duplicates()
        &&& forall|c: u16|
            #![trigger self.clients@.contains(c)]
            #![trigger self.accounts@.contains_key(c)]
            self.clients@.contains(c) <==> self.accounts@.contains_key(c)
    }

    /// Creates an engine with no accounts and no deposit records.
    pub fn new() -> (r: PaymentsEngine)
        ensures
            r.wf(),
            r@ == empty_state(),
    {
        let r = PaymentsEngine {
            accounts: HashMap::new(),
            deposits: HashMap::new(),
            clients: Vec::new(),
        };
        proof {
            assert(r@.accounts =~= empty_state().accounts);
            assert(r@.deposits =~= empty_state().deposits);
            assert(r@ =~= empty_state());
        }
        r
    }

    /// Looks an account up by client id, copying it out of the map.
    fn get_account(&self, client: u16) -> (r: Option<SparseAccount>)
        ensures
            r is Some <==> self@.accounts.contains_key(client),
            r matches Some(a) ==> a@ == self@.accounts[client],
    {
        match self.accounts.get(&client) {
            Some(a) => Some(*a),
            None => None,
        }
    }

    /// Looks a deposit record up by transaction id, copying it out of the map.
    fn get_deposit(&self, tx: u32) -> (r: Option<Deposit>)
        ensures
            r is Some <==> self@.deposits.contains_key(tx),
            r matches Some(d) ==> d@ == self@.deposits[tx],
    {
        match self.deposits.get(&tx) {
            Some(d) => Some(*d),
            None => None,
        }
    }

    /// Transfers credit to the client's account, creating the account if the
    /// client is new, and records the deposit as disputable (overwriting any
    /// earlier record with the same transaction id).
    ///
    /// Fails only if the client's existing account is locked.
    pub fn deposit(&mut self, client: u16, tx: u32, amount: Amount) -> (r: Result<(), PaymentError>)
        requires
            old(self).wf(),
            deposit_fits(old(self)@, client, amount@),
        ensures
            final(self).wf(),
            state_bounded(final(self)@),
            r is Ok <==> deposit_allowed(old(self)@, client),
            r is Ok ==> final(self)@ == deposit_step(old(self)@, client, tx, amount@),
            r is Err ==> final(self)@ == old(self)@,
            r matches Err(e) ==> e == deposit_failure(client, tx),
    {
        let ghost s0 = self@;
        let ghost pre = *self;
        match self.get_account(client) {
            Some(acct) => {
                if let Err(e) = acct.assert_not_locked(client, tx) {
                    return Err(e);
                }
                let updated = SparseAccount {
                    available: acct.available + amount.raw,
                    held: acct.held,
                    locked: acct.locked,
                };
                self.accounts.insert(client, updated);
                self.deposits.insert(tx, Deposit { client, amount, disputed: false });
                proof {
                    assert(self@.accounts =~= deposit_step(s0, client, tx, amount@).accounts);
                    assert(self@.deposits =~= deposit_step(s0, client, tx, amount@).deposits);
                    assert(self@ =~= deposit_step(s0, client, tx, amount@));
                    lemma_bounded_after_step(s0, self@, client, tx);
                    lemma_clients_in_step(pre, *self, client);
                }
                Ok(())
            },
            None => {
                self.accounts.insert(
                    client,
                    SparseAccount { available: amount.raw, held: 0, locked: false },
                );
                self.clients.push(client);
                self.deposits.insert(tx, Deposit { client, amount, disputed: false });
                proof {
                    assert(self@.accounts =~= deposit_step(s0, client, tx, amount@).accounts);
                    assert(self@.deposits =~= deposit_step(s0, client, tx, amount@).deposits);
                    assert(self@ =~= deposit_step(s0, client, tx, amount@));
                    lemma_bounded_after_step(s0, self@, client, tx);
                    lemma_clients_in_step(pre, *self, client);
                }
                Ok(())
            },
        }
    }

    /// Withdraws the amount from the client's account.
    ///
    /// Fails if the account does not exist (a withdrawal never creates one),
    /// is locked, or holds less available funds than the amount.
    pub fn withdraw(&mut self, client: u16, tx: u32, amount: Amount) -> (r: Result<
        (),
        PaymentError,
    >)
        requires
            old(self).wf(),
            withdraw_fits(old(self)@, client, amount@),
        ensures
            final(self).wf(),
            state_bounded(final(self)@),
            r is Ok <==> withdraw_allowed(old(self)@, client, amount@),
            r is Ok ==> final(self)@ == withdraw_step(old(self)@, client, amount@),
            r is Err ==> final(self)@ == old(self)@,
            r matches Err(e) ==> e == withdraw_failure(old(self)@, client, tx, amount),
    {
        let ghost s0 = self@;
        let ghost pre = *self;
        let acct = match self.get_account(client) {
            Some(a) => a,
            None => {
                return Err(
                    PaymentError::InvalidTransaction(InvalidReason::UnknownAccount { client, tx }),
                );
            },
        };
        if let Err(e) = acct.assert_not_locked(client, tx) {
            return Err(e);
        }
        if acct.available >= amount.raw {
            let updated = SparseAccount {
                available: acct.available - amount.raw,
                held: acct.held,
                locked: acct.locked,
            };
            self.accounts.insert(client, updated);
            proof {
                assert(self@.accounts =~= withdraw_step(s0, client, amount@).accounts);
                assert(self@.deposits =~= withdraw_step(s0, client, amount@).deposits);
                assert(self@ =~= withdraw_step(s0, client, amount@));
                lemma_bounded_after_step(s0, self@, client, tx);
                lemma_clients_in_step(pre, *self, client);
            }
            Ok(())
        } else {
            Err(
                PaymentError::InsufficientFunds {
                    client,
                    tx,
                    available: (Amount { raw: acct.available }),
                    amount,
                },
            )
        }
    }

    /// Opens a dispute against a past deposit: its amount moves from
    /// `available` to `held` and the record is flagged as disputed.
    ///
    /// Fails if the account does not exist, is locked, no deposit record
    /// exists for `tx`, or the available funds do not cover the recorded
    /// amount.
    pub fn dispute(&mut self, client: u16, tx: u32) -> (r: Result<(), PaymentError>)
        requires
            old(self).wf(),
            dispute_fits(old(self)@, client, tx),
        ensures
            final(self).wf(),
            state_bounded(final(self)@),
            r is Ok <==> dispute_allowed(old(self)@, client, tx),
            r is Ok ==> final(self)@ == dispute_step(old(self)@, client, tx),
            r is Err ==> final(self)@ == old(self)@,
            r matches Err(e) ==> e == dispute_failure(old(self)@, client, tx),
    {
        let ghost s0 = self@;
        let ghost pre = *self;
        let acct = match self.get_account(client) {
            Some(a) => a,
            None => {
                return Err(PaymentError::UnknownClient { client, tx, op: OpKind::Dispute });
            },
        };
        if let Err(e) = acct.assert_not_locked(client, tx) {
            return Err(e);
        }
        let dep = match self.get_deposit(tx) {
            Some(d) => d,
            None => {
                return Err(PaymentError::UnknownTransaction { client, tx, op: OpKind::Dispute });
            },
        };
        if acct.available >= dep.amount.raw {
            let updated = SparseAccount {
                available: acct.available - dep.amount.raw,
                held: acct.held + dep.amount.raw,
                locked: acct.locked,
            };
            self.accounts.insert(client, updated);
            self.deposits.insert(
                tx,
                Deposit { client: dep.client, amount: dep.amount, disputed: true },
            );
            proof {
                assert(self@.accounts =~= dispute_step(s0, client, tx).accounts);
                assert(self@.deposits =~= dispute_step(s0, client, tx).deposits);
                assert(self@ =~= dispute_step(s0, client, tx));
                lemma_bounded_after_step(s0, self@, client, tx);
                lemma_clients_in_step(pre, *self, client);
            }
            Ok(())
        } else {
            Err(
                PaymentError::InsufficientFunds {
                    client,
                    tx,
                    available: (Amount { raw: acct.available }),
                    amount: dep.amount,
                },
            )
        }
    }

    /// Closes a dispute in the client's favour: the recorded amount moves back
    /// from `held` to `available` and the disputed flag is cleared.
    ///
    /// Fails if the account does not exist, is locked, no deposit record
    /// exists for `tx`, or the record is not under dispute.
    pub fn resolve(&mut self, client: u16, tx: u32) -> (r: Result<(), PaymentError>)
        requires
            old(self).wf(),
            resolve_fits(old(self)@, client, tx),
        ensures
            final(self).wf(),
            state_bounded(final(self)@),
            r is Ok <==> resolve_allowed(old(self)@, client, tx),
            r is Ok ==> final(self)@ == resolve_step(old(self)@, client, tx),
            r is Err ==> final(self)@ == old(self)@,
            r matches Err(e) ==> e == resolve_failure(old(self)@, client, tx),
    {
        let ghost s0 = self@;
        let ghost pre = *self;
        let acct = match self.get_account(client) {
            Some(a) => a,
            None => {
                return Err(PaymentError::UnknownClient { client, tx, op: OpKind::Resolve });
            },
        };
        if let Err(e) = acct.assert_not_locked(client, tx) {
            return Err(e);
        }
        let dep = match self.get_deposit(tx) {
            Some(d) => d,
            None => {
                return Err(PaymentError::UnknownTransaction { client, tx, op: OpKind::Resolve });
            },
        };
        if dep.disputed {
            let updated = SparseAccount {
                available: acct.available + dep.amount.raw,
                held: acct.held - dep.amount.raw,
                locked: acct.locked,
            };
            self.accounts.insert(client, updated);
            self.deposits.insert(
                tx,
                Deposit { client: dep.client, amount: dep.amount, disputed: false },
            );
            proof {
                assert(self@.accounts =~= resolve_step(s0, client, tx).accounts);
                assert(self@.deposits =~= resolve_step(s0, client, tx).deposits);
                assert(self@ =~= resolve_step(s0, client, tx));
                lemma_bounded_after_step(s0, self@, client, tx);
                lemma_clients_in_step(pre, *self, client);
            }
            Ok(())
        } else {
            Err(
                PaymentError::InvalidTransaction(
                    InvalidReason::NotDisputed { client, tx, op: OpKind::Resolve },
                ),
            )
        }
    }

    /// Closes a dispute in favour of the disputing party: the account's held
    /// funds are zeroed outright, the account is locked for good, and the
    /// deposit record is removed so the transaction id cannot be disputed,
    /// resolved or charged back again.
    ///
    /// Fails if the account does not exist, is locked, no deposit record
    /// exists for `tx`, or the record is not under dispute.
    pub fn chargeback(&mut self, client: u16, tx: u32) -> (r: Result<(), PaymentError>)
        requires
            old(self).wf(),
        ensures
            final(self).wf(),
            state_bounded(final(self)@),
            r is Ok <==> chargeback_allowed(old(self)@, client, tx),
            r is Ok ==> final(self)@ == chargeback_step(old(self)@, client, tx),
            r is Err ==> final(self)@ == old(self)@,
            r matches Err(e) ==> e == chargeback_failure(old(self)@, client, tx),
    {
        let ghost s0 = self@;
        let ghost pre = *self;
        let acct = match self.get_account(client) {
            Some(a) => a,
            None => {
                return Err(PaymentError::UnknownClient { client, tx, op: OpKind::Chargeback });
            },
        };
        if let Err(e) = acct.assert_not_locked(client, tx) {
            return Err(e);
        }
        let dep = match self.get_deposit(tx) {
            Some(d) => d,
            None => {
                return Err(
                    PaymentError::UnknownTransaction { client, tx, op: OpKind::Chargeback },
                );
            },
        };
        if dep.disputed {
            let updated = SparseAccount { available: acct.available, held: 0, locked: true };
            self.accounts.insert(client, updated);
            self.deposits.remove(&tx);
            proof {
                assert(self@.accounts =~= chargeback_step(s0, client, tx).accounts);
                assert(self@.deposits =~= chargeback_step(s0, client, tx).deposits);
                assert(self@ =~= chargeback_step(s0, client, tx));
                lemma_bounded_after_step(s0, self@, client, tx);
                lemma_clients_in_step(pre, *self, client);
            }
            Ok(())
        } else {
            Err(
                PaymentError::InvalidTransaction(
                    InvalidReason::NotDisputed { client, tx, op: OpKind::Chargeback },
                ),
            )
        }
    }

    /// Dispatches one transaction record to the matching transition.
    ///
    /// A deposit or withdrawal record without its required amount is rejected
    /// before any dispatch; otherwise the outcome is exactly that of the
    /// dispatched transition.
    pub fn execute(&mut self, transaction: Transaction) -> (r: Result<(), PaymentError>)
        requires
            old(self).wf(),
            apply_fits(old(self)@, transaction),
        ensures
            final(self).wf(),
            state_bounded(final(self)@),
            final(self)@ == apply_step(old(self)@, transaction),
            r is Ok <==> apply_allowed(old(self)@, transaction),
            r matches Err(e) ==> e == apply_failure(old(self)@, transaction),
    {
        let Transaction { transaction_type, client, tx, amount } = transaction;
        match transaction_type {
            TransactionType::Deposit => match amount {
                Some(a) => self.deposit(client, tx, a),
                None => Err(
                    PaymentError::InvalidTransaction(
                        InvalidReason::MissingAmount {
                            transaction_type: TransactionType::Deposit,
                            tx,
                        },
                    ),
                ),
            },
            TransactionType::Withdrawal => match amount {
                Some(a) => self.withdraw(client, tx, a),
                None => Err(
                    PaymentError::InvalidTransaction(
                        InvalidReason::MissingAmount {
                            transaction_type: TransactionType::Withdrawal,
                            tx,
                        },
                    ),
                ),
            },
            TransactionType::Dispute => self.dispute(client, tx),
            TransactionType::Resolve => self.resolve(client, tx),
            TransactionType::Chargeback => self.chargeback(client, tx),
        }
    }

    /// Reports the current snapshot of one client's account, or `None` if the
    /// client has never received a deposit.
    pub fn account(&self, client: u16) -> (r: Option<Account>)
        requires
            self.wf(),
        ensures
            r is Some <==> self@.accounts.contains_key(client),
            r matches Some(a) ==> a.client == client && snapshot_matches(self@, a),
    {
        match self.get_account(client) {
            Some(acct) => {
                let total: i64 = acct.available + acct.held;
                Some(
                    Account {
                        client,
                        available: Amount { raw: acct.available },
                        held: Amount { raw: acct.held },
                        total: Amount { raw: total },
                        locked: acct.locked,
                    },
                )
            },
            None => None,
        }
    }

    /// Reports the stored deposit record for a transaction id, or `None` if
    /// none exists (never deposited, or consumed by a chargeback).
    pub fn deposit_record(&self, tx: u32) -> (r: Option<Deposit>)
        ensures
            r is Some <==> self@.deposits.contains_key(tx),
            r matches Some(d) ==> d@ == self@.deposits[tx],
    {
        self.get_deposit(tx)
    }

    /// Snapshots every account, each client exactly once, in order of first
    /// deposit.
    pub fn accounts(&self) -> (r: Vec<Account>)
        requires
            self.wf(),
        ensures
            r@.len() == self@.accounts.dom().len(),
            forall|i: int| 0 <= i < r@.len() ==> snapshot_matches(self@, #[trigger] r@[i]),
            forall|i: int, j: int|
                0 <= i < r@.len() && 0 <= j < r@.len() && i != j ==> r@[i].client != r@[j].client,
            forall|c: u16|
                #[trigger] self@.accounts.contains_key(c) ==> exists|i: int|
                    0 <= i < r@.len() && r@[i].client == c,
    {
        let mut out: Vec<Account> = Vec::new();
        let n: usize = self.clients.len();
        let mut i: usize = 0;
        while i < n
            invariant
                self.wf(),
                n == self.clients@.len(),
                i <= n,
                out@.len() == i,
                forall|j: int|
                    0 <= j < i ==> #[trigger] out@[j].client == self.clients@[j]
                        && snapshot_matches(self@, out@[j]),
            decreases n - i,
        {
            let c = self.clients[i];
            proof {
                assert(self.clients@.contains(c));
            }
            match self.get_account(c) {
                Some(acct) => {
                    let total: i64 = acct.available + acct.held;
                    out.push(
                        Account {
                            client: c,
                            available: Amount { raw: acct.available },
                            held: Amount { raw: acct.held },
                            total: Amount { raw: total },
                            locked: acct.locked,
                        },
                    );
                },
                None => {
                    // The client list holds only keys of the account map.
                    proof {
                        assert(false);
                    }
                },
            }
            i = i + 1;
        }
        proof {
            assert forall|c: u16| #[trigger]
                self@.accounts.contains_key(c) implies exists|i: int|
                0 <= i < out@.len() && out@[i].client == c by {
                assert(self.clients@.contains(c));
                let j = choose|j: int| 0 <= j < self.clients@.len() && self.clients@[j] == c;
                assert(out@[j].client == c);
            }
            assert(self.clients@.to_set() =~= self.accounts@.dom());
            self.clients@.unique_seq_to_set();
            assert(self@.accounts.dom() =~= self.accounts@.dom());
        }
        out
    }
}

} // verus!
