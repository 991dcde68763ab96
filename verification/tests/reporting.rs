use payments_engine_example::handlers::handle_transaction;
use payments_engine_example::state::State;
use payments_engine_example::test_utils::run_test_scenario;
use payments_engine_example::types::{
    OutputRecord, TransactionError, TransactionRecord, TransactionType,
};
use payments_engine_example::{
    assign_tx_to_thread, configure_deserialize_workers, deserialize_workers, output_records,
};

fn record(
    transaction_type: TransactionType,
    client_id: u16,
    tx_id: u32,
    amount: Option<i64>,
) -> TransactionRecord {
    TransactionRecord {
        transaction_type,
        client_id,
        tx_id,
        amount,
    }
}

#[test]
fn events_of_one_client_go_to_one_worker() {
    let deposit = record(TransactionType::Deposit, 10, 1, Some(5));
    let dispute = record(TransactionType::Dispute, 10, 1, None);
    assert_eq!(assign_tx_to_thread(deposit, 4), 2);
    assert_eq!(assign_tx_to_thread(dispute, 4), 2);
    assert_eq!(assign_tx_to_thread(record(TransactionType::Resolve, 11, 1, None), 4), 3);
    assert_eq!(assign_tx_to_thread(record(TransactionType::Resolve, 12, 1, None), 4), 0);
    assert_eq!(assign_tx_to_thread(record(TransactionType::Resolve, 65535, 1, None), 1), 0);
    assert_eq!(assign_tx_to_thread(record(TransactionType::Resolve, 65535, 1, None), 7), 1);
}

#[test]
fn workers_default_to_half_of_the_cores() {
    assert_eq!(deserialize_workers(Some(3), 16), 3);
    assert_eq!(deserialize_workers(Some(0), 16), 0);
    assert_eq!(deserialize_workers(None, 16), 8);
    assert_eq!(deserialize_workers(None, 7), 3);
    assert_eq!(deserialize_workers(None, 1), 0);
}

#[test]
fn workers_are_configured_for_this_machine() {
    assert_eq!(configure_deserialize_workers(Some(2)), 2);
    assert_eq!(configure_deserialize_workers(Some(0)), 0);
    assert_eq!(configure_deserialize_workers(None), num_cpus::get() / 2);
}

#[test]
fn report_has_one_row_for_each_account() {
    let mut state = State::new();
    let events = [
        record(TransactionType::Deposit, 2, 1, Some(100_000)),
        record(TransactionType::Deposit, 1, 2, Some(15_000)),
        record(TransactionType::Withdrawal, 1, 3, Some(5_000)),
        record(TransactionType::Dispute, 2, 1, None),
        record(TransactionType::Deposit, 3, 4, Some(1)),
        record(TransactionType::Dispute, 3, 4, None),
        record(TransactionType::Chargeback, 3, 4, None),
        record(TransactionType::Withdrawal, 4, 5, Some(1)),
    ];
    for event in events {
        let _ = handle_transaction(event, &mut state);
    }
    let mut rows = output_records(&state);
    rows.sort_by_key(|row| row.client);
    assert_eq!(
        rows,
        vec![
            OutputRecord {
                client: 1,
                available: 10_000,
                held: 0,
                total: 10_000,
                locked: false,
            },
            OutputRecord {
                client: 2,
                available: 0,
                held: 100_000,
                total: 100_000,
                locked: false,
            },
            OutputRecord {
                client: 3,
                available: 0,
                held: 0,
                total: 0,
                locked: true,
            },
        ]
    );
}

#[test]
fn report_of_an_empty_ledger_is_empty() {
    assert_eq!(output_records(&State::new()), vec![]);
}

#[test]
fn scenario_gives_the_errors_in_the_order_of_the_events() {
    let events = vec![
        record(TransactionType::Dispute, 1, 1, None),
        record(TransactionType::Deposit, 1, 1, Some(10)),
        record(TransactionType::Deposit, 1, 1, Some(10)),
        record(TransactionType::Withdrawal, 1, 2, Some(11)),
        record(TransactionType::Withdrawal, 1, 3, Some(10)),
        record(TransactionType::Resolve, 1, 1, Some(1)),
    ];
    let (state, errors) = run_test_scenario(State::new(), events.clone());
    assert_eq!(
        errors,
        vec![
            TransactionError::TxDoesNotExist { client: 1, tx: 1 },
            TransactionError::DuplicateTxId { tx: 1 },
            TransactionError::InsufficientFunds {
                client: 1,
                tx: 2,
                requested: 11,
                available: 10
            },
            TransactionError::ImproperTransaction(events[5]),
        ]
    );
    let mut replay = State::new();
    for event in events {
        let _ = handle_transaction(event, &mut replay);
    }
    assert_eq!(state.accounts, replay.accounts);
    assert_eq!(state.accounts.get(1).map(|account| account.available), Some(0));
}

#[test]
fn scenario_without_events_changes_nothing() {
    let (state, errors) = run_test_scenario(State::new(), Vec::new());
    assert_eq!(errors, vec![]);
    assert_eq!(state.accounts.iter().count(), 0);
}
