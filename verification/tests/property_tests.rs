use payments_engine::{ApplyError, Engine, Operation, Transaction};

fn tx(id: u32, operation: Operation, client_id: u16, amount: Option<i64>) -> Transaction {
    Transaction { id, operation, client_id, amount }
}

#[test]
fn deposit_accumulation_totals() {
    // deposit 10 then 20: available 30, held 0, total 30, not locked
    let mut engine = Engine::new();
    engine.apply(tx(1, Operation::Deposit, 0, Some(10))).unwrap();
    engine.apply(tx(2, Operation::Deposit, 0, Some(20))).unwrap();

    let clients = engine.clients();
    assert_eq!(clients.len(), 1);
    assert_eq!(clients[0].balance, 30);
    assert_eq!(clients[0].under_dispute, 0);
    assert_eq!(clients[0].allocated, 30);
    assert!(!clients[0].is_frozen);
}

#[test]
fn dispute_lifecycle_totals() {
    // disputing a withdrawal makes the held amount negative and the total
    // equal to the balance before the withdrawal is provisionally undone
    let mut engine = Engine::new();
    engine.apply(tx(1, Operation::Deposit, 0, Some(10))).unwrap();
    engine.apply(tx(2, Operation::Withdrawal, 0, Some(3))).unwrap();
    engine.apply(tx(2, Operation::Dispute, 0, None)).unwrap();

    let clients = engine.clients();
    assert_eq!(clients[0].balance, 10);
    assert_eq!(clients[0].under_dispute, -3);
    assert_eq!(clients[0].allocated, 7);

    engine.apply(tx(2, Operation::Chargeback, 0, None)).unwrap();
    let clients = engine.clients();
    assert_eq!(clients[0].balance, 10);
    assert_eq!(clients[0].under_dispute, 0);
    assert_eq!(clients[0].allocated, 10);
    assert!(clients[0].is_frozen);
}

#[test]
fn rejection_changes_nothing() {
    // a rejected transaction leaves every reported account identical
    let mut engine = Engine::new();
    engine.apply(tx(1, Operation::Deposit, 0, Some(10))).unwrap();
    engine.apply(tx(2, Operation::Deposit, 5, Some(4))).unwrap();
    let before = engine.clients();

    let rejected = [
        tx(3, Operation::Deposit, 0, None),
        tx(1, Operation::Deposit, 0, Some(2)),
        tx(3, Operation::Withdrawal, 0, Some(11)),
        tx(9, Operation::Dispute, 0, None),
        tx(2, Operation::Dispute, 0, None),
        tx(1, Operation::Resolve, 0, None),
        tx(1, Operation::Chargeback, 0, None),
    ];
    for t in rejected {
        assert!(engine.apply(t).is_err());
        assert_eq!(engine.clients(), before);
    }
}

#[test]
fn duplicate_id_rejected_once_used() {
    // the first deposit with an id commits; any later deposit or withdrawal
    // with the same id is rejected, whatever its client or amount
    let mut engine = Engine::new();
    engine.apply(tx(7, Operation::Deposit, 0, Some(5))).unwrap();

    let second = engine.apply(tx(7, Operation::Deposit, 9, Some(1000)));
    assert_eq!(second, Err(ApplyError::DuplicateTransactionId));

    let third = engine.apply(tx(7, Operation::Withdrawal, 0, Some(1)));
    assert_eq!(third, Err(ApplyError::DuplicateTransactionId));

    let clients = engine.clients();
    assert_eq!(clients.len(), 1);
    assert_eq!(clients[0].balance, 5);
}

#[test]
fn frozen_account_rejects_with_reason() {
    let mut engine = Engine::new();
    engine.apply(tx(1, Operation::Deposit, 0, Some(10))).unwrap();
    engine.apply(tx(1, Operation::Dispute, 0, None)).unwrap();
    engine.apply(tx(1, Operation::Chargeback, 0, None)).unwrap();

    assert_eq!(
        engine.apply(tx(2, Operation::Deposit, 0, Some(1))),
        Err(ApplyError::FrozenAccount)
    );
    assert_eq!(
        engine.apply(tx(3, Operation::Withdrawal, 0, Some(0))),
        Err(ApplyError::FrozenAccount)
    );
    assert_eq!(engine.apply(tx(1, Operation::Dispute, 0, None)), Err(ApplyError::FrozenAccount));
}

#[test]
fn chargeback_on_deposit_removes_funds() {
    // full lifecycle on a deposit: held is positive while disputed, and a
    // chargeback removes the funds and freezes the account
    let mut engine = Engine::new();
    engine.apply(tx(1, Operation::Deposit, 0, Some(10))).unwrap();
    engine.apply(tx(1, Operation::Dispute, 0, None)).unwrap();

    let clients = engine.clients();
    assert_eq!(clients[0].balance, 0);
    assert_eq!(clients[0].under_dispute, 10);
    assert_eq!(clients[0].allocated, 10);

    engine.apply(tx(1, Operation::Chargeback, 0, None)).unwrap();
    let clients = engine.clients();
    assert_eq!(clients[0].balance, 0);
    assert_eq!(clients[0].under_dispute, 0);
    assert_eq!(clients[0].allocated, 0);
    assert!(clients[0].is_frozen);
}

#[test]
fn resolve_restores_funds() {
    let mut engine = Engine::new();
    engine.apply(tx(1, Operation::Deposit, 0, Some(10))).unwrap();
    engine.apply(tx(1, Operation::Dispute, 0, None)).unwrap();
    engine.apply(tx(1, Operation::Resolve, 0, None)).unwrap();

    let clients = engine.clients();
    assert_eq!(clients[0].balance, 10);
    assert_eq!(clients[0].under_dispute, 0);
    assert!(!clients[0].is_frozen);
}

#[test]
fn missing_amount_rejected() {
    let mut engine = Engine::new();
    assert_eq!(
        engine.apply(tx(1, Operation::Deposit, 0, None)),
        Err(ApplyError::MissingAmount)
    );
    assert_eq!(
        engine.apply(tx(2, Operation::Withdrawal, 0, None)),
        Err(ApplyError::MissingAmount)
    );
    assert!(engine.clients().is_empty());
}

#[test]
fn unrepresentable_withdrawal_magnitude_rejected() {
    // a withdrawal's stored magnitude is the negated amount, which the
    // smallest representable amount does not have
    let mut engine = Engine::new();
    assert_eq!(
        engine.apply(tx(1, Operation::Withdrawal, 0, Some(i64::MIN))),
        Err(ApplyError::AmountOutOfRange)
    );
    assert!(engine.clients().is_empty());
}

#[test]
fn unknown_reference_rejected() {
    let mut engine = Engine::new();
    assert_eq!(
        engine.apply(tx(5, Operation::Dispute, 0, None)),
        Err(ApplyError::UnknownTransactionReference)
    );
    assert_eq!(
        engine.apply(tx(5, Operation::Resolve, 0, None)),
        Err(ApplyError::UnknownTransactionReference)
    );
    assert_eq!(
        engine.apply(tx(5, Operation::Chargeback, 0, None)),
        Err(ApplyError::UnknownTransactionReference)
    );
}

#[test]
fn client_mismatch_rejected() {
    let mut engine = Engine::new();
    engine.apply(tx(1, Operation::Deposit, 0, Some(10))).unwrap();
    assert_eq!(
        engine.apply(tx(1, Operation::Dispute, 1, None)),
        Err(ApplyError::ClientMismatch)
    );
    let clients = engine.clients();
    assert_eq!(clients.len(), 1);
    assert_eq!(clients[0].balance, 10);
    assert_eq!(clients[0].under_dispute, 0);
}

#[test]
fn wrong_lifecycle_rejected() {
    let mut engine = Engine::new();
    engine.apply(tx(1, Operation::Deposit, 0, Some(10))).unwrap();

    // resolve and chargeback need an active dispute
    assert_eq!(
        engine.apply(tx(1, Operation::Resolve, 0, None)),
        Err(ApplyError::WrongLifecycleState)
    );
    assert_eq!(
        engine.apply(tx(1, Operation::Chargeback, 0, None)),
        Err(ApplyError::WrongLifecycleState)
    );

    // a dispute cannot be raised twice
    engine.apply(tx(1, Operation::Dispute, 0, None)).unwrap();
    assert_eq!(
        engine.apply(tx(1, Operation::Dispute, 0, None)),
        Err(ApplyError::WrongLifecycleState)
    );
}

#[test]
fn overdraw_rejected() {
    let mut engine = Engine::new();
    engine.apply(tx(1, Operation::Deposit, 0, Some(3))).unwrap();
    assert_eq!(
        engine.apply(tx(2, Operation::Withdrawal, 0, Some(5))),
        Err(ApplyError::InvariantViolation)
    );
    assert_eq!(engine.clients()[0].balance, 3);
}

#[test]
fn overflowing_balance_rejected() {
    // a deposit that would leave the representable range is rejected and
    // changes nothing, like one that would overdraw
    let mut engine = Engine::new();
    engine.apply(tx(1, Operation::Deposit, 0, Some(i64::MAX))).unwrap();
    assert_eq!(
        engine.apply(tx(2, Operation::Deposit, 0, Some(1))),
        Err(ApplyError::InvariantViolation)
    );
    assert_eq!(engine.clients()[0].balance, i64::MAX);
}

#[test]
fn negative_deposit_within_balance_accepted() {
    // amounts are only required to be present and representable; a negative
    // deposit commits as long as the balance stays non-negative
    let mut engine = Engine::new();
    engine.apply(tx(1, Operation::Deposit, 0, Some(10))).unwrap();
    engine.apply(tx(2, Operation::Deposit, 0, Some(-4))).unwrap();
    assert_eq!(engine.clients()[0].balance, 6);

    assert_eq!(
        engine.apply(tx(3, Operation::Deposit, 0, Some(-7))),
        Err(ApplyError::InvariantViolation)
    );
    assert_eq!(engine.clients()[0].balance, 6);
}
