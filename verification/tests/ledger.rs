use payments_engine::account::Account;
use payments_engine::amount::{Amount, MAX_MANTISSA};
use payments_engine::engine::PaymentEngine;
use payments_engine::error::PaymentError;
use payments_engine::transaction::{TransactionRecord, TransactionType};

fn deposit(client: u16, tx: u32, num: i64, scale: u32) -> TransactionRecord {
    TransactionRecord {
        tx_type: TransactionType::Deposit,
        client,
        tx,
        amount: Some(Amount::new(num, scale)),
    }
}

fn withdrawal(client: u16, tx: u32, num: i64, scale: u32) -> TransactionRecord {
    TransactionRecord {
        tx_type: TransactionType::Withdrawal,
        client,
        tx,
        amount: Some(Amount::new(num, scale)),
    }
}

fn dispute(client: u16, tx: u32) -> TransactionRecord {
    TransactionRecord { tx_type: TransactionType::Dispute, client, tx, amount: None }
}

fn resolve(client: u16, tx: u32) -> TransactionRecord {
    TransactionRecord { tx_type: TransactionType::Resolve, client, tx, amount: None }
}

fn chargeback(client: u16, tx: u32) -> TransactionRecord {
    TransactionRecord { tx_type: TransactionType::Chargeback, client, tx, amount: None }
}

fn account(engine: &PaymentEngine, client: u16) -> Account {
    engine.accounts().into_iter().find(|a| a.client == client).unwrap()
}

/// Every account as (client, available, held, locked), amounts in ten-thousandths.
fn snapshot(engine: &PaymentEngine) -> Vec<(u16, String, String, bool)> {
    engine
        .accounts()
        .into_iter()
        .map(|a| {
            (a.client, a.available.to_fixed4().unwrap(), a.held.to_fixed4().unwrap(), a.locked)
        })
        .collect()
}

#[test]
fn two_clients_deposit_and_withdraw() {
    let mut engine = PaymentEngine::new();
    assert!(engine.process(&deposit(1, 1, 10, 1)).is_ok());
    assert!(engine.process(&deposit(2, 2, 20, 1)).is_ok());
    assert!(engine.process(&deposit(1, 3, 20, 1)).is_ok());
    assert!(engine.process(&withdrawal(1, 4, 15, 1)).is_ok());
    let rejected = engine.process(&withdrawal(2, 5, 30, 1));
    match rejected {
        Err(PaymentError::InsufficientFunds(client, asked, available)) => {
            assert_eq!(client, 2);
            assert_eq!(asked, Amount::new(3, 0));
            assert_eq!(available, Amount::new(2, 0));
        },
        other => panic!("{other:?}"),
    }

    let first = account(&engine, 1);
    assert_eq!(first.available, Amount::new(15000, 4));
    assert_eq!(first.held, Amount::zero());
    assert_eq!(first.total(), Amount::new(15000, 4));
    assert!(!first.locked);
    let second = account(&engine, 2);
    assert_eq!(second.available, Amount::new(20000, 4));
    assert_eq!(second.held, Amount::zero());
    assert!(!second.locked);
    assert_eq!(
        snapshot(&engine),
        vec![
            (1, "1.5000".to_string(), "0.0000".to_string(), false),
            (2, "2.0000".to_string(), "0.0000".to_string(), false),
        ]
    );
}

#[test]
fn dispute_of_spent_funds_then_chargeback() {
    let mut engine = PaymentEngine::new();
    engine.process(&deposit(1, 1, 100, 0)).unwrap();
    engine.process(&withdrawal(1, 2, 40, 0)).unwrap();
    engine.process(&dispute(1, 1)).unwrap();
    let disputed = account(&engine, 1);
    assert_eq!(disputed.available, Amount::new(-400000, 4));
    assert_eq!(disputed.held, Amount::new(1000000, 4));
    assert_eq!(disputed.available.to_fixed4().unwrap(), "-40.0000");
    assert_eq!(disputed.held.to_fixed4().unwrap(), "100.0000");

    engine.process(&chargeback(1, 1)).unwrap();
    let charged = account(&engine, 1);
    assert_eq!(charged.available, Amount::new(-400000, 4));
    assert_eq!(charged.held, Amount::zero());
    assert_eq!(charged.total(), Amount::new(-400000, 4));
    assert_eq!(charged.total().to_fixed4().unwrap(), "-40.0000");
    assert!(charged.locked);
}

#[test]
fn second_dispute_is_already_under_dispute() {
    let mut engine = PaymentEngine::new();
    engine.process(&deposit(1, 1, 10, 0)).unwrap();
    engine.process(&dispute(1, 1)).unwrap();
    for _ in 0..3 {
        let again = engine.process(&dispute(1, 1));
        assert!(matches!(again, Err(PaymentError::AlreadyUnderDispute(1))));
        assert_eq!(account(&engine, 1).held, Amount::new(100000, 4));
        assert_eq!(account(&engine, 1).held.to_fixed4().unwrap(), "10.0000");
        assert_eq!(account(&engine, 1).available, Amount::zero());
    }
}

#[test]
fn second_deposit_under_one_id_is_a_duplicate() {
    let mut engine = PaymentEngine::new();
    engine.process(&deposit(1, 1, 10, 0)).unwrap();
    let second = engine.process(&deposit(1, 1, 99, 0));
    assert!(matches!(second, Err(PaymentError::DuplicateTransaction(1))));
    assert_eq!(account(&engine, 1).available, Amount::new(100000, 4));
    assert_eq!(account(&engine, 1).available.to_fixed4().unwrap(), "10.0000");

    // Under another client too, and the other client gets no account.
    let other = engine.process(&deposit(2, 1, 5, 0));
    assert!(matches!(other, Err(PaymentError::DuplicateTransaction(1))));
    assert_eq!(engine.accounts().len(), 1);

    // The record still belongs to the first deposit: a dispute moves 10.
    engine.process(&dispute(1, 1)).unwrap();
    assert_eq!(account(&engine, 1).held, Amount::new(10, 0));
}

#[test]
fn withdrawal_by_a_new_client_creates_its_account() {
    let mut engine = PaymentEngine::new();
    let result = engine.process(&withdrawal(1, 1, 10, 0));
    match result {
        Err(PaymentError::InsufficientFunds(client, asked, available)) => {
            assert_eq!(client, 1);
            assert_eq!(asked, Amount::new(10, 0));
            assert_eq!(available, Amount::zero());
        },
        other => panic!("{other:?}"),
    }
    assert_eq!(snapshot(&engine), vec![(1, "0.0000".to_string(), "0.0000".to_string(), false)]);
    // Asked again, it is rejected in the same way and nothing more changes.
    for _ in 0..3 {
        assert!(matches!(
            engine.process(&withdrawal(1, 1, 10, 0)),
            Err(PaymentError::InsufficientFunds(1, _, _))
        ));
        assert_eq!(
            snapshot(&engine),
            vec![(1, "0.0000".to_string(), "0.0000".to_string(), false)]
        );
    }

    // Withdrawals never leave a record to dispute.
    assert!(matches!(engine.process(&dispute(1, 1)), Err(PaymentError::TransactionNotFound(1))));
    // The id is still free for a deposit.
    assert!(engine.process(&deposit(1, 1, 3, 0)).is_ok());
}

#[test]
fn total_is_available_plus_held_after_every_step() {
    let mut engine = PaymentEngine::new();
    let steps = [
        deposit(1, 1, 12345, 4),
        deposit(1, 2, 5, 1),
        withdrawal(1, 3, 1, 3),
        dispute(1, 2),
        deposit(1, 4, 7, 0),
        resolve(1, 2),
        dispute(1, 1),
        chargeback(1, 1),
    ];
    // 1.2345, 1.7345, 1.7335, (1.2335, 0.5), (8.2335, 0.5), (8.7335, 0), (7.4990, 1.2345), (7.4990, 0)
    let expected = [
        (12345, 0),
        (17345, 0),
        (17335, 0),
        (12335, 5000),
        (82335, 5000),
        (87335, 0),
        (74990, 12345),
        (74990, 0),
    ];
    for (step, (available, held)) in steps.iter().zip(expected) {
        engine.process(step).unwrap();
        let a = account(&engine, 1);
        assert_eq!(a.available, Amount::new(available, 4));
        assert_eq!(a.held, Amount::new(held, 4));
        assert_eq!(a.total(), Amount::new(available + held, 4));
    }
    assert!(account(&engine, 1).locked);
}

#[test]
fn reference_by_another_client_is_not_found() {
    let mut engine = PaymentEngine::new();
    engine.process(&deposit(1, 1, 10, 0)).unwrap();
    engine.process(&deposit(2, 2, 5, 0)).unwrap();
    let before = snapshot(&engine);

    assert!(matches!(engine.process(&dispute(2, 1)), Err(PaymentError::TransactionNotFound(1))));
    assert!(matches!(engine.process(&resolve(2, 1)), Err(PaymentError::TransactionNotFound(1))));
    assert!(matches!(engine.process(&chargeback(2, 1)), Err(PaymentError::TransactionNotFound(1))));
    // A client without an account gets the same answer and no account.
    assert!(matches!(engine.process(&dispute(3, 1)), Err(PaymentError::TransactionNotFound(1))));
    assert_eq!(snapshot(&engine), before);

    // The owner's dispute goes through, and still nobody else can end it.
    engine.process(&dispute(1, 1)).unwrap();
    let disputed = snapshot(&engine);
    assert!(matches!(engine.process(&resolve(2, 1)), Err(PaymentError::TransactionNotFound(1))));
    assert!(matches!(engine.process(&chargeback(2, 1)), Err(PaymentError::TransactionNotFound(1))));
    assert_eq!(snapshot(&engine), disputed);
    engine.process(&resolve(1, 1)).unwrap();
    assert_eq!(snapshot(&engine), before);
}

#[test]
fn rejection_is_idempotent() {
    let mut engine = PaymentEngine::new();
    engine.process(&deposit(1, 1, 10, 0)).unwrap();
    engine.process(&deposit(2, 2, 7, 0)).unwrap();
    engine.process(&dispute(2, 2)).unwrap();
    engine.process(&chargeback(2, 2)).unwrap();
    let before = snapshot(&engine);

    let invalid = [
        TransactionRecord { tx_type: TransactionType::Deposit, client: 1, tx: 9, amount: None },
        TransactionRecord { tx_type: TransactionType::Withdrawal, client: 1, tx: 9, amount: None },
        deposit(1, 9, 0, 0),
        deposit(1, 9, -1, 2),
        withdrawal(1, 9, 0, 3),
        withdrawal(1, 9, -5, 0),
        deposit(1, 1, 3, 0),
        withdrawal(1, 9, 1001, 2),
        dispute(1, 9),
        resolve(1, 1),
        chargeback(1, 1),
        deposit(2, 9, 1, 0),
        dispute(2, 2),
    ];
    for record in invalid {
        let first = engine.process(&record).unwrap_err();
        assert_eq!(snapshot(&engine), before);
        for _ in 0..3 {
            let again = engine.process(&record).unwrap_err();
            assert_eq!(std::mem::discriminant(&again), std::mem::discriminant(&first));
            assert_eq!(snapshot(&engine), before);
        }
    }
}

#[test]
fn each_rejection_has_its_error() {
    let mut engine = PaymentEngine::new();
    engine.process(&deposit(1, 1, 10, 0)).unwrap();
    let none = |tx_type| TransactionRecord { tx_type, client: 1, tx: 5, amount: None };

    assert!(matches!(
        engine.process(&none(TransactionType::Deposit)),
        Err(PaymentError::MissingAmount(5))
    ));
    assert!(matches!(
        engine.process(&none(TransactionType::Withdrawal)),
        Err(PaymentError::MissingAmount(5))
    ));
    match engine.process(&deposit(1, 5, -25, 1)) {
        Err(PaymentError::InvalidAmount(5, amount)) => assert_eq!(amount, Amount::new(-25, 1)),
        other => panic!("{other:?}"),
    }
    match engine.process(&withdrawal(1, 5, 0, 0)) {
        Err(PaymentError::InvalidAmount(5, amount)) => assert_eq!(amount, Amount::zero()),
        other => panic!("{other:?}"),
    }
    // An invalid amount is reported before a duplicate id.
    assert!(matches!(engine.process(&deposit(1, 1, 0, 0)), Err(PaymentError::InvalidAmount(1, _))));
    assert!(matches!(
        engine.process(&deposit(1, 1, 1, 0)),
        Err(PaymentError::DuplicateTransaction(1))
    ));
    match engine.process(&withdrawal(1, 5, 100001, 4)) {
        Err(PaymentError::InsufficientFunds(1, asked, available)) => {
            assert_eq!(asked, Amount::new(100001, 4));
            assert_eq!(available, Amount::new(10, 0));
        },
        other => panic!("{other:?}"),
    }
    assert!(matches!(engine.process(&dispute(1, 5)), Err(PaymentError::TransactionNotFound(5))));
    assert!(matches!(engine.process(&resolve(1, 5)), Err(PaymentError::TransactionNotFound(5))));
    assert!(matches!(engine.process(&chargeback(1, 5)), Err(PaymentError::TransactionNotFound(5))));
    assert!(matches!(engine.process(&resolve(1, 1)), Err(PaymentError::NotUnderDispute(1))));
    assert!(matches!(engine.process(&chargeback(1, 1)), Err(PaymentError::NotUnderDispute(1))));
    engine.process(&dispute(1, 1)).unwrap();
    assert!(matches!(engine.process(&dispute(1, 1)), Err(PaymentError::AlreadyUnderDispute(1))));
    engine.process(&chargeback(1, 1)).unwrap();
    assert!(matches!(engine.process(&deposit(1, 6, 1, 0)), Err(PaymentError::AccountFrozen(1))));
}

#[test]
fn dispute_resolve_dispute_restores_the_balances() {
    let mut engine = PaymentEngine::new();
    engine.process(&deposit(1, 1, 5025, 2)).unwrap();
    engine.process(&deposit(1, 2, 1, 0)).unwrap();
    let start = snapshot(&engine);
    assert_eq!(start, vec![(1, "51.2500".to_string(), "0.0000".to_string(), false)]);

    engine.process(&dispute(1, 1)).unwrap();
    let disputed = snapshot(&engine);
    assert_eq!(disputed, vec![(1, "1.0000".to_string(), "50.2500".to_string(), false)]);
    engine.process(&resolve(1, 1)).unwrap();
    assert_eq!(snapshot(&engine), start);
    assert_eq!(account(&engine, 1).available, Amount::new(5125, 2));
    engine.process(&dispute(1, 1)).unwrap();
    assert_eq!(snapshot(&engine), disputed);
    assert_eq!(account(&engine, 1).held, Amount::new(5025, 2));
    assert_eq!(account(&engine, 1).total(), Amount::new(5125, 2));
}

#[test]
fn a_locked_account_rejects_everything() {
    let mut engine = PaymentEngine::new();
    engine.process(&deposit(1, 1, 10, 0)).unwrap();
    engine.process(&deposit(1, 2, 4, 0)).unwrap();
    engine.process(&deposit(2, 3, 1, 0)).unwrap();
    engine.process(&dispute(1, 1)).unwrap();
    engine.process(&dispute(1, 2)).unwrap();
    engine.process(&chargeback(1, 1)).unwrap();
    let locked = snapshot(&engine);
    assert_eq!(
        locked,
        vec![
            (1, "0.0000".to_string(), "4.0000".to_string(), true),
            (2, "1.0000".to_string(), "0.0000".to_string(), false),
        ]
    );

    let later = [
        deposit(1, 7, 50, 0),
        withdrawal(1, 8, 1, 0),
        dispute(1, 2),
        resolve(1, 2),
        chargeback(1, 2),
        dispute(1, 1),
        deposit(1, 1, 1, 0),
        TransactionRecord { tx_type: TransactionType::Deposit, client: 1, tx: 9, amount: None },
    ];
    for record in later {
        assert!(matches!(engine.process(&record), Err(PaymentError::AccountFrozen(1))));
        assert_eq!(snapshot(&engine), locked);
    }
    // Other clients go on, and the lock stays.
    engine.process(&deposit(2, 7, 2, 0)).unwrap();
    assert!(matches!(engine.process(&deposit(1, 10, 1, 0)), Err(PaymentError::AccountFrozen(1))));
    assert_eq!(account(&engine, 1).available, Amount::zero());
    assert_eq!(account(&engine, 1).held, Amount::new(4, 0));
    assert_eq!(account(&engine, 2).available, Amount::new(3, 0));
}

#[test]
fn withdrawal_of_the_whole_balance_leaves_zero() {
    let mut engine = PaymentEngine::new();
    engine.process(&deposit(1, 1, 700, 2)).unwrap();
    engine.process(&withdrawal(1, 2, 7, 0)).unwrap();
    assert_eq!(account(&engine, 1).available, Amount::zero());
    assert!(matches!(
        engine.process(&withdrawal(1, 3, 1, 28)),
        Err(PaymentError::InsufficientFunds(1, _, _))
    ));
}

#[test]
fn accounts_come_by_ascending_client() {
    let mut engine = PaymentEngine::new();
    assert!(engine.accounts().is_empty());
    for (tx, client) in [65535u16, 3, 0, 40000, 17].into_iter().enumerate() {
        engine.process(&deposit(client, tx as u32, client as i64 + 1, 0)).unwrap();
    }
    let accounts = engine.accounts();
    let clients: Vec<u16> = accounts.iter().map(|a| a.client).collect();
    assert_eq!(clients, vec![0, 3, 17, 40000, 65535]);
    for a in accounts {
        assert_eq!(a.available, Amount::new(a.client as i64 + 1, 0));
    }
}

#[test]
fn try_process_is_none_where_the_arithmetic_is_out_of_range() {
    let largest = Amount::try_from_parts(MAX_MANTISSA, 0).unwrap();
    let mut engine = PaymentEngine::new();
    let fill = TransactionRecord {
        tx_type: TransactionType::Deposit,
        client: 1,
        tx: 1,
        amount: Some(largest),
    };
    assert!(matches!(engine.try_process(&fill), Some(Ok(()))));
    assert_eq!(account(&engine, 1).available, largest);

    // One more does not fit; neither does a withdrawal of 10^-28.
    assert!(engine.try_process(&deposit(1, 2, 1, 0)).is_none());
    assert!(engine.try_process(&withdrawal(1, 3, 1, 28)).is_none());
    assert_eq!(account(&engine, 1).available, largest);
    // Nothing was recorded under those ids.
    assert!(matches!(
        engine.try_process(&dispute(1, 2)),
        Some(Err(PaymentError::TransactionNotFound(2)))
    ));

    // A rejected transaction calls for no arithmetic and is always answered.
    assert!(matches!(
        engine.try_process(&deposit(1, 1, 1, 0)),
        Some(Err(PaymentError::DuplicateTransaction(1)))
    ));
    // What fits goes through.
    assert!(matches!(engine.try_process(&withdrawal(1, 4, 1, 0)), Some(Ok(()))));
    assert!(matches!(engine.try_process(&deposit(1, 2, 1, 0)), Some(Ok(()))));
    assert_eq!(account(&engine, 1).available, largest);

    // A dispute moves the amount into held only if both balances fit.
    assert!(matches!(engine.try_process(&deposit(2, 10, 5, 0)), Some(Ok(()))));
    assert!(matches!(engine.try_process(&dispute(1, 1)), Some(Ok(()))));
    assert_eq!(account(&engine, 1).available, Amount::zero());
    assert_eq!(account(&engine, 1).held, largest);
    assert!(engine.try_process(&dispute(1, 2)).is_none());
    assert_eq!(account(&engine, 1).available, Amount::zero());
    assert_eq!(account(&engine, 1).held, largest);
    assert!(matches!(engine.try_process(&resolve(1, 1)), Some(Ok(()))));
    assert!(matches!(engine.try_process(&dispute(1, 2)), Some(Ok(()))));
    assert_eq!(account(&engine, 1).held, Amount::new(1, 0));
}

#[test]
fn process_all_reports_rejections_in_order() {
    let records = vec![
        deposit(1, 1, 10, 0),
        deposit(1, 1, 20, 0),
        withdrawal(2, 2, 5, 0),
        dispute(1, 1),
        dispute(1, 1),
        chargeback(1, 1),
        deposit(1, 3, 1, 0),
        deposit(2, 4, 25, 1),
    ];
    let mut engine = PaymentEngine::new();
    let replay = engine.process_all(&records);
    assert_eq!(replay.processed, 8);
    assert_eq!(replay.rejected.len(), 4);
    assert!(matches!(replay.rejected[0], PaymentError::DuplicateTransaction(1)));
    assert!(matches!(replay.rejected[1], PaymentError::InsufficientFunds(2, _, _)));
    assert!(matches!(replay.rejected[2], PaymentError::AlreadyUnderDispute(1)));
    assert!(matches!(replay.rejected[3], PaymentError::AccountFrozen(1)));
    assert_eq!(
        snapshot(&engine),
        vec![
            (1, "0.0000".to_string(), "0.0000".to_string(), true),
            (2, "2.5000".to_string(), "0.0000".to_string(), false),
        ]
    );

    let nothing = PaymentEngine::new().process_all(&[]);
    assert_eq!(nothing.processed, 0);
    assert!(nothing.rejected.is_empty());
}

#[test]
fn process_all_stops_before_the_first_record_out_of_range() {
    let largest = Amount::try_from_parts(MAX_MANTISSA, 0).unwrap();
    let records = vec![
        deposit(1, 1, -3, 0),
        TransactionRecord {
            tx_type: TransactionType::Deposit,
            client: 1,
            tx: 2,
            amount: Some(largest),
        },
        deposit(1, 3, 1, 0),
        deposit(2, 4, 1, 0),
    ];
    let mut engine = PaymentEngine::new();
    let replay = engine.process_all(&records);
    assert_eq!(replay.processed, 2);
    assert_eq!(replay.rejected.len(), 1);
    assert!(matches!(replay.rejected[0], PaymentError::InvalidAmount(1, _)));
    assert_eq!(engine.accounts().len(), 1);
    assert_eq!(account(&engine, 1).available, largest);
}
