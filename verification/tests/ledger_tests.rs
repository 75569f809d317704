use toy_payments_engine::error::{InvalidReason, OpKind};
use toy_payments_engine::{
    Account, Amount, Deposit, PaymentError, PaymentsEngine, Transaction, TransactionType,
};

#[test]
fn amount_scales_mantissa_to_ten_thousandths() {
    assert_eq!(Amount::new(155, 1), Amount { raw: 155_000 });
    assert_eq!(Amount::new(3, 0), Amount { raw: 30_000 });
    assert_eq!(Amount::new(13, 2), Amount { raw: 1_300 });
    assert_eq!(Amount::new(12345, 4), Amount { raw: 12_345 });
    assert_eq!(Amount::new(-50, 1), Amount { raw: -50_000 });
    assert_eq!(Amount::default(), Amount::new(0, 0));
}

#[test]
fn scenario_deposit_withdraw_dispute_chargeback() {
    let mut engine = PaymentsEngine::new();
    engine.deposit(1, 1, Amount::new(155, 1)).unwrap();
    engine.withdraw(1, 2, Amount::new(50, 1)).unwrap();
    engine.deposit(2, 3, Amount::new(95, 1)).unwrap();
    engine.dispute(2, 3).unwrap();
    engine.chargeback(2, 3).unwrap();

    let mut accounts = engine.accounts();
    accounts.sort_by(|a, b| a.client.cmp(&b.client));
    assert_eq!(
        vec![
            Account {
                client: 1,
                available: Amount::new(105, 1),
                held: Amount::new(0, 0),
                total: Amount::new(105, 1),
                locked: false,
            },
            Account {
                client: 2,
                available: Amount::new(0, 0),
                held: Amount::new(0, 0),
                total: Amount::new(0, 0),
                locked: true,
            },
        ],
        accounts
    );
}

#[test]
fn scenario_dispute_larger_than_remaining_funds() {
    let mut engine = PaymentsEngine::new();
    engine.deposit(1, 1, Amount::new(10, 0)).unwrap();
    assert_eq!(Ok(()), engine.withdraw(1, 2, Amount::new(1, 0)));
    assert_eq!(
        Err(PaymentError::InsufficientFunds {
            client: 1,
            tx: 1,
            available: Amount::new(9, 0),
            amount: Amount::new(10, 0),
        }),
        engine.dispute(1, 1)
    );
}

#[test]
fn scenario_withdrawal_never_creates_an_account() {
    let mut engine = PaymentsEngine::new();
    assert_eq!(
        Err(PaymentError::InvalidTransaction(InvalidReason::UnknownAccount {
            client: 9,
            tx: 1,
        })),
        engine.withdraw(9, 1, Amount::new(3, 0))
    );
    assert_eq!(None, engine.account(9));
    assert!(engine.accounts().is_empty());
}

#[test]
fn redeposited_transaction_id_overwrites_the_record() {
    let mut engine = PaymentsEngine::new();
    engine.deposit(1, 1, Amount::new(5, 0)).unwrap();
    engine.deposit(1, 1, Amount::new(7, 0)).unwrap();
    assert_eq!(
        Some(Deposit { client: 1, amount: Amount::new(7, 0), disputed: false }),
        engine.deposit_record(1)
    );
    // Both deposits were credited even though the record was overwritten.
    assert_eq!(Amount::new(12, 0), engine.account(1).unwrap().available);
}

#[test]
fn dispute_moves_funds_to_held_and_resolve_restores_them() {
    let mut engine = PaymentsEngine::new();
    engine.deposit(1, 1, Amount::new(7, 0)).unwrap();
    engine.deposit(1, 2, Amount::new(3, 0)).unwrap();
    engine.dispute(1, 1).unwrap();

    let during = engine.account(1).unwrap();
    assert_eq!(Amount::new(3, 0), during.available);
    assert_eq!(Amount::new(7, 0), during.held);
    assert_eq!(Amount::new(10, 0), during.total);
    assert_eq!(Some(true), engine.deposit_record(1).map(|d| d.disputed));

    // Interleaved activity of another client does not disturb the dispute.
    engine.deposit(2, 9, Amount::new(4, 0)).unwrap();
    engine.withdraw(2, 10, Amount::new(1, 0)).unwrap();

    engine.resolve(1, 1).unwrap();
    let after = engine.account(1).unwrap();
    assert_eq!(Amount::new(10, 0), after.available);
    assert_eq!(Amount::new(0, 0), after.held);
    assert!(!after.locked);
    assert_eq!(Some(false), engine.deposit_record(1).map(|d| d.disputed));
}

#[test]
fn chargeback_locks_account_and_consumes_the_record() {
    let mut engine = PaymentsEngine::new();
    engine.deposit(1, 1, Amount::new(5, 0)).unwrap();
    engine.dispute(1, 1).unwrap();
    engine.chargeback(1, 1).unwrap();

    let account = engine.account(1).unwrap();
    assert!(account.locked);
    assert_eq!(Amount::new(0, 0), account.held);
    assert_eq!(None, engine.deposit_record(1));

    // The consumed transaction id is gone and the locked account rejects
    // every further mutating operation.
    assert_eq!(
        Err(PaymentError::LockedAccount { client: 1, tx: 1 }),
        engine.dispute(1, 1)
    );
    assert_eq!(
        Err(PaymentError::LockedAccount { client: 1, tx: 1 }),
        engine.resolve(1, 1)
    );
    assert_eq!(
        Err(PaymentError::LockedAccount { client: 1, tx: 1 }),
        engine.chargeback(1, 1)
    );
    assert_eq!(
        Err(PaymentError::LockedAccount { client: 1, tx: 2 }),
        engine.deposit(1, 2, Amount::new(1, 0))
    );
    assert_eq!(
        Err(PaymentError::LockedAccount { client: 1, tx: 3 }),
        engine.withdraw(1, 3, Amount::new(1, 0))
    );
}

#[test]
fn chargeback_zeroes_held_funds_of_other_open_disputes() {
    let mut engine = PaymentsEngine::new();
    engine.deposit(1, 1, Amount::new(5, 0)).unwrap();
    engine.deposit(1, 2, Amount::new(4, 0)).unwrap();
    engine.dispute(1, 1).unwrap();
    engine.dispute(1, 2).unwrap();
    engine.chargeback(1, 2).unwrap();

    // Held funds are zeroed outright, not merely reduced by the charged-back
    // amount: the other open dispute's funds vanish with them.
    let account = engine.account(1).unwrap();
    assert_eq!(Amount::new(0, 0), account.available);
    assert_eq!(Amount::new(0, 0), account.held);
    assert_eq!(Amount::new(0, 0), account.total);
    assert!(account.locked);
}

#[test]
fn execute_dispatches_by_transaction_kind() {
    let mut engine = PaymentsEngine::new();
    engine
        .execute(Transaction {
            transaction_type: TransactionType::Deposit,
            client: 1,
            tx: 1,
            amount: Some(Amount::new(6, 0)),
        })
        .unwrap();
    engine
        .execute(Transaction {
            transaction_type: TransactionType::Withdrawal,
            client: 1,
            tx: 2,
            amount: Some(Amount::new(1, 0)),
        })
        .unwrap();
    engine
        .execute(Transaction {
            transaction_type: TransactionType::Deposit,
            client: 1,
            tx: 3,
            amount: Some(Amount::new(3, 0)),
        })
        .unwrap();
    engine
        .execute(Transaction {
            transaction_type: TransactionType::Dispute,
            client: 1,
            tx: 3,
            amount: None,
        })
        .unwrap();
    engine
        .execute(Transaction {
            transaction_type: TransactionType::Resolve,
            client: 1,
            tx: 3,
            amount: None,
        })
        .unwrap();
    engine
        .execute(Transaction {
            transaction_type: TransactionType::Dispute,
            client: 1,
            tx: 3,
            amount: None,
        })
        .unwrap();
    engine
        .execute(Transaction {
            transaction_type: TransactionType::Chargeback,
            client: 1,
            tx: 3,
            amount: None,
        })
        .unwrap();

    let account = engine.account(1).unwrap();
    assert_eq!(Amount::new(5, 0), account.available);
    assert_eq!(Amount::new(0, 0), account.held);
    assert!(account.locked);
}

#[test]
fn execute_rejects_missing_amounts() {
    let mut engine = PaymentsEngine::new();
    assert_eq!(
        Err(PaymentError::InvalidTransaction(InvalidReason::MissingAmount {
            transaction_type: TransactionType::Deposit,
            tx: 5,
        })),
        engine.execute(Transaction {
            transaction_type: TransactionType::Deposit,
            client: 1,
            tx: 5,
            amount: None,
        })
    );
    assert_eq!(
        Err(PaymentError::InvalidTransaction(InvalidReason::MissingAmount {
            transaction_type: TransactionType::Withdrawal,
            tx: 6,
        })),
        engine.execute(Transaction {
            transaction_type: TransactionType::Withdrawal,
            client: 1,
            tx: 6,
            amount: None,
        })
    );
    // The rejected records changed nothing.
    assert!(engine.accounts().is_empty());
}

#[test]
fn dispute_lifecycle_errors_name_their_operation() {
    let mut engine = PaymentsEngine::new();
    assert_eq!(
        Err(PaymentError::UnknownClient { client: 4, tx: 9, op: OpKind::Dispute }),
        engine.dispute(4, 9)
    );
    assert_eq!(
        Err(PaymentError::UnknownClient { client: 4, tx: 9, op: OpKind::Resolve }),
        engine.resolve(4, 9)
    );
    assert_eq!(
        Err(PaymentError::UnknownClient { client: 4, tx: 9, op: OpKind::Chargeback }),
        engine.chargeback(4, 9)
    );

    engine.deposit(4, 1, Amount::new(2, 0)).unwrap();
    assert_eq!(
        Err(PaymentError::UnknownTransaction { client: 4, tx: 9, op: OpKind::Dispute }),
        engine.dispute(4, 9)
    );
    assert_eq!(
        Err(PaymentError::UnknownTransaction { client: 4, tx: 9, op: OpKind::Resolve }),
        engine.resolve(4, 9)
    );
    assert_eq!(
        Err(PaymentError::UnknownTransaction { client: 4, tx: 9, op: OpKind::Chargeback }),
        engine.chargeback(4, 9)
    );

    assert_eq!(
        Err(PaymentError::InvalidTransaction(InvalidReason::NotDisputed {
            client: 4,
            tx: 1,
            op: OpKind::Resolve,
        })),
        engine.resolve(4, 1)
    );
    assert_eq!(
        Err(PaymentError::InvalidTransaction(InvalidReason::NotDisputed {
            client: 4,
            tx: 1,
            op: OpKind::Chargeback,
        })),
        engine.chargeback(4, 1)
    );
}

#[test]
fn snapshot_lists_every_client_exactly_once() {
    let mut engine = PaymentsEngine::new();
    engine.deposit(7, 1, Amount::new(1, 0)).unwrap();
    engine.deposit(3, 2, Amount::new(2, 0)).unwrap();
    engine.deposit(7, 3, Amount::new(4, 0)).unwrap();

    let mut accounts = engine.accounts();
    accounts.sort_by(|a, b| a.client.cmp(&b.client));
    assert_eq!(2, accounts.len());
    assert_eq!(3, accounts[0].client);
    assert_eq!(Amount::new(2, 0), accounts[0].available);
    assert_eq!(7, accounts[1].client);
    assert_eq!(Amount::new(5, 0), accounts[1].available);
}

#[test]
fn negative_deposits_are_accepted_as_given() {
    let mut engine = PaymentsEngine::new();
    engine.deposit(1, 1, Amount::new(-5, 0)).unwrap();
    assert_eq!(Amount::new(-5, 0), engine.account(1).unwrap().available);
}

#[test]
fn largest_representable_amount_is_handled() {
    let mut engine = PaymentsEngine::new();
    engine.deposit(1, 1, Amount { raw: i64::MAX }).unwrap();
    let account = engine.account(1).unwrap();
    assert_eq!(Amount { raw: i64::MAX }, account.available);
    assert_eq!(Amount { raw: 0 }, account.held);
    assert_eq!(Amount { raw: i64::MAX }, account.total);
}
