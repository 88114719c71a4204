use ledger::errors::{ClientError, Error, TransactionError};
use ledger::state::{Client, CsvClient, CurrentState};
use ledger::transaction::{Amount, Transaction, TransactionType, TransactionUnchecked};

fn units(whole: i128) -> Amount {
    Amount { units: whole * 10000 }
}

fn record(kind: TransactionType, client: u16, id: u32, amount: Option<Amount>) -> Transaction {
    Transaction::try_from(TransactionUnchecked { kind, client, id, amount }).unwrap()
}

fn deposit(client: u16, id: u32, amount: Amount) -> Transaction {
    record(TransactionType::Deposit, client, id, Some(amount))
}

fn withdrawal(client: u16, id: u32, amount: Amount) -> Transaction {
    record(TransactionType::Withdrawal, client, id, Some(amount))
}

fn dispute(client: u16, id: u32) -> Transaction {
    record(TransactionType::Dispute, client, id, None)
}

fn resolve(client: u16, id: u32) -> Transaction {
    record(TransactionType::Resolve, client, id, None)
}

fn chargeback(client: u16, id: u32) -> Transaction {
    record(TransactionType::Chargeback, client, id, None)
}

fn apply(state: &mut CurrentState, tx: &Transaction) -> Result<(), Error> {
    assert!(state.within_limits(tx));
    state.add(tx)
}

fn line(client: u16, available: i128, held: i128, locked: bool) -> CsvClient {
    CsvClient {
        client,
        available: Amount { units: available },
        held: Amount { units: held },
        total: Amount { units: available + held },
        locked,
    }
}

#[test]
fn two_deposits_and_a_withdrawal() {
    let mut state = CurrentState::new();
    assert_eq!(apply(&mut state, &deposit(1, 1, units(5))), Ok(()));
    assert_eq!(apply(&mut state, &deposit(2, 2, units(3))), Ok(()));
    assert_eq!(apply(&mut state, &withdrawal(1, 3, units(2))), Ok(()));
    assert_eq!(
        state.snapshot(),
        vec![line(1, 30000, 0, false), line(2, 30000, 0, false)]
    );
}

#[test]
fn dispute_holds_the_deposit() {
    let mut state = CurrentState::new();
    assert_eq!(apply(&mut state, &deposit(1, 1, units(5))), Ok(()));
    assert_eq!(apply(&mut state, &dispute(1, 1)), Ok(()));
    assert_eq!(state.snapshot(), vec![line(1, 0, 50000, false)]);
    assert!(state.is_disputed(1));
}

#[test]
fn chargeback_locks_and_refuses_later_deposit() {
    let mut state = CurrentState::new();
    assert_eq!(apply(&mut state, &deposit(1, 1, units(5))), Ok(()));
    assert_eq!(apply(&mut state, &dispute(1, 1)), Ok(()));
    assert_eq!(apply(&mut state, &chargeback(1, 1)), Ok(()));
    assert_eq!(state.snapshot(), vec![line(1, 0, 0, true)]);
    assert!(!state.is_disputed(1));
    assert_eq!(
        apply(&mut state, &deposit(1, 2, units(1))),
        Err(Error::Client(ClientError::Locked(2)))
    );
    assert_eq!(state.snapshot(), vec![line(1, 0, 0, true)]);
}

#[test]
fn locked_account_refuses_every_kind() {
    let mut state = CurrentState::new();
    apply(&mut state, &deposit(1, 1, units(5))).unwrap();
    apply(&mut state, &deposit(1, 2, units(7))).unwrap();
    apply(&mut state, &dispute(1, 1)).unwrap();
    apply(&mut state, &chargeback(1, 1)).unwrap();
    assert_eq!(
        apply(&mut state, &withdrawal(1, 3, units(1))),
        Err(Error::Client(ClientError::Locked(3)))
    );
    assert_eq!(
        apply(&mut state, &dispute(1, 2)),
        Err(Error::Client(ClientError::Locked(2)))
    );
    assert_eq!(
        apply(&mut state, &resolve(1, 2)),
        Err(Error::Client(ClientError::Locked(2)))
    );
    assert_eq!(
        apply(&mut state, &chargeback(1, 2)),
        Err(Error::Client(ClientError::Locked(2)))
    );
    assert_eq!(state.snapshot(), vec![line(1, 70000, 0, true)]);
}

#[test]
fn withdrawal_without_deposit_creates_empty_account() {
    let mut state = CurrentState::new();
    assert_eq!(
        apply(&mut state, &withdrawal(9, 100, units(5))),
        Err(Error::Client(ClientError::InsufficientFunds(100)))
    );
    assert_eq!(state.snapshot(), vec![line(9, 0, 0, false)]);
    assert_eq!(state.client(9), Some(Client::from_id(9)));
    assert_eq!(state.transaction(100), None);
}

#[test]
fn withdrawal_of_the_whole_balance_is_refused() {
    let mut state = CurrentState::new();
    apply(&mut state, &deposit(1, 1, units(5))).unwrap();
    assert_eq!(
        apply(&mut state, &withdrawal(1, 2, units(5))),
        Err(Error::Client(ClientError::InsufficientFunds(2)))
    );
    assert_eq!(state.snapshot(), vec![line(1, 50000, 0, false)]);
    assert_eq!(apply(&mut state, &withdrawal(1, 3, Amount { units: 49999 })), Ok(()));
    assert_eq!(state.snapshot(), vec![line(1, 1, 0, false)]);
}

#[test]
fn deposit_enters_the_ledger() {
    let mut state = CurrentState::new();
    let tx = deposit(4, 11, Amount { units: 12345 });
    apply(&mut state, &tx).unwrap();
    assert_eq!(state.transaction(11), Some(tx));
    assert_eq!(state.client(4).unwrap().available, Amount { units: 12345 });
}

#[test]
fn second_dispute_is_refused() {
    let mut state = CurrentState::new();
    apply(&mut state, &deposit(1, 1, units(5))).unwrap();
    apply(&mut state, &dispute(1, 1)).unwrap();
    assert_eq!(
        apply(&mut state, &dispute(1, 1)),
        Err(Error::Transaction(TransactionError::DisputeAlreadyExists(1)))
    );
    assert_eq!(state.snapshot(), vec![line(1, 0, 50000, false)]);
}

#[test]
fn resolve_returns_held_funds() {
    let mut state = CurrentState::new();
    apply(&mut state, &deposit(1, 1, units(5))).unwrap();
    apply(&mut state, &deposit(1, 2, units(2))).unwrap();
    apply(&mut state, &dispute(1, 1)).unwrap();
    assert_eq!(state.snapshot(), vec![line(1, 20000, 50000, false)]);
    assert_eq!(apply(&mut state, &resolve(1, 1)), Ok(()));
    assert_eq!(state.snapshot(), vec![line(1, 70000, 0, false)]);
    assert!(!state.is_disputed(1));
    assert_eq!(
        apply(&mut state, &resolve(1, 1)),
        Err(Error::Transaction(TransactionError::NonexistentDispute(1)))
    );
}

#[test]
fn dispute_of_a_withdrawal() {
    let mut state = CurrentState::new();
    apply(&mut state, &deposit(3, 1, units(10))).unwrap();
    apply(&mut state, &withdrawal(3, 2, units(4))).unwrap();
    apply(&mut state, &dispute(3, 2)).unwrap();
    assert_eq!(state.snapshot(), vec![line(3, 20000, 40000, false)]);
}

#[test]
fn refused_rows_change_nothing() {
    let mut state = CurrentState::new();
    apply(&mut state, &deposit(1, 1, units(5))).unwrap();
    apply(&mut state, &deposit(2, 2, units(3))).unwrap();
    apply(&mut state, &dispute(2, 2)).unwrap();
    let before = state.snapshot();
    assert_eq!(
        apply(&mut state, &deposit(1, 1, units(9))),
        Err(Error::Transaction(TransactionError::AlreadyExists(1)))
    );
    assert_eq!(
        apply(&mut state, &dispute(1, 7)),
        Err(Error::Transaction(TransactionError::NonexistentTransaction(7)))
    );
    assert_eq!(
        apply(&mut state, &dispute(2, 1)),
        Err(Error::Transaction(TransactionError::ClientMismatch(1)))
    );
    assert_eq!(
        apply(&mut state, &chargeback(1, 1)),
        Err(Error::Transaction(TransactionError::NonexistentDispute(1)))
    );
    assert_eq!(
        apply(&mut state, &withdrawal(1, 8, units(6))),
        Err(Error::Client(ClientError::InsufficientFunds(8)))
    );
    assert_eq!(state.snapshot(), before);
    assert!(state.is_disputed(2));
    assert!(!state.is_disputed(1));
    assert_eq!(state.transaction(8), None);
    assert_eq!(state.transaction(1), Some(deposit(1, 1, units(5))));
}

#[test]
fn snapshot_total_is_available_plus_held() {
    let mut state = CurrentState::default();
    apply(&mut state, &deposit(5, 1, Amount { units: 15 })).unwrap();
    apply(&mut state, &deposit(5, 2, Amount { units: 27 })).unwrap();
    apply(&mut state, &dispute(5, 2)).unwrap();
    for l in state.snapshot() {
        assert_eq!(l.total.units, l.available.units + l.held.units);
    }
    let c = state.client(5).unwrap();
    assert_eq!(CsvClient::from(&c), line(5, 15, 27, false));
}

#[test]
fn snapshot_follows_account_creation_order() {
    let mut state = CurrentState::new();
    apply(&mut state, &deposit(7, 1, units(1))).unwrap();
    apply(&mut state, &deposit(3, 2, units(2))).unwrap();
    apply(&mut state, &deposit(7, 3, units(1))).unwrap();
    let ids: Vec<u16> = state.snapshot().iter().map(|l| l.client).collect();
    assert_eq!(ids, vec![7, 3]);
}

#[test]
fn validation_of_amounts() {
    let unchecked = |kind, amount| TransactionUnchecked { kind, client: 1, id: 42, amount };
    assert_eq!(
        Transaction::try_from(unchecked(TransactionType::Deposit, None)),
        Err(TransactionError::MissingAmount(42))
    );
    assert_eq!(
        Transaction::try_from(unchecked(TransactionType::Withdrawal, Some(Amount { units: 0 }))),
        Err(TransactionError::AmountNotPositive(42))
    );
    assert_eq!(
        Transaction::try_from(unchecked(TransactionType::Deposit, Some(Amount { units: -3 }))),
        Err(TransactionError::AmountNotPositive(42))
    );
    assert_eq!(
        Transaction::try_from(unchecked(TransactionType::Dispute, Some(units(1)))),
        Err(TransactionError::SuperfluousAmount(42))
    );
    assert_eq!(
        Transaction::try_from(unchecked(TransactionType::Resolve, None)),
        Ok(Transaction { kind: TransactionType::Resolve, client: 1, id: 42, amount: None })
    );
    assert_eq!(
        Transaction::try_from(unchecked(TransactionType::Withdrawal, Some(Amount { units: 1 }))),
        Ok(Transaction {
            kind: TransactionType::Withdrawal,
            client: 1,
            id: 42,
            amount: Some(Amount { units: 1 })
        })
    );
}

#[test]
fn fresh_account_is_zero_and_unlocked() {
    let c = Client::from_id(12);
    assert_eq!(c.id, 12);
    assert_eq!(c.available, Amount::zero());
    assert_eq!(c.held, Amount::zero());
    assert!(!c.locked);
}

#[test]
fn oversized_amount_is_outside_limits() {
    let state = CurrentState::new();
    let tx = deposit(1, 1, Amount { units: i128::MAX });
    assert!(!state.within_limits(&tx));
    assert!(state.within_limits(&deposit(1, 1, units(1))));
}

#[test]
fn amount_from_decimal_parts() {
    assert_eq!(Amount::from_parts(50, 1), Some(Amount { units: 50000 }));
    assert_eq!(Amount::from_parts(5, 0), Some(Amount { units: 50000 }));
    assert_eq!(Amount::from_parts(12345, 4), Some(Amount { units: 12345 }));
    assert_eq!(Amount::from_parts(-7, 2), Some(Amount { units: -700 }));
    assert_eq!(Amount::from_parts(0, 0), Some(Amount { units: 0 }));
    assert_eq!(Amount::from_parts(123456, 5), None);
    assert_eq!(Amount::from_parts(i128::MAX, 0), None);
    assert_eq!(Amount::from_parts(i128::MAX, 4), Some(Amount { units: i128::MAX }));
}
