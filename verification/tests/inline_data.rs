use std::collections::HashMap;

use payments_engine_example::currency::UNITS_PER_WHOLE;
use payments_engine_example::state::{AccountsState, State};
use payments_engine_example::test_utils::run_test_scenario;
use payments_engine_example::types::{
    Account, Amount, Balance, ClientId, TransactionError, TransactionRecord, TransactionType,
};

/// An amount of whole units and decimal fractions, in ten-thousandths.
fn amount(value: f64) -> Amount {
    (value * UNITS_PER_WHOLE as f64).round() as Amount
}

/// A balance of whole units and decimal fractions, in ten-thousandths.
fn balance(value: f64) -> Balance {
    (value * UNITS_PER_WHOLE as f64).round() as Balance
}

/// Given an initial state and a set of transactions, test that the final
/// account states and generated errors both match their expected values.
fn check_scenario(
    initial_state: State,
    transactions: Vec<TransactionRecord>,
    final_accounts: HashMap<ClientId, Account>,
    expected_errors: Vec<TransactionError>,
) {
    let (state, actual_errors) = run_test_scenario(initial_state, transactions);
    let final_accounts_state: AccountsState = final_accounts.into();

    assert_eq!(final_accounts_state, state.accounts);
    assert_eq!(expected_errors, actual_errors);
}

#[test]
fn deposit_new_account() {
    let initial_state = State::new();

    let transactions = vec![TransactionRecord {
        transaction_type: TransactionType::Deposit,
        client_id: 1,
        tx_id: 1,
        amount: Some(amount(5.0)),
    }];

    let mut final_accounts = HashMap::new();
    final_accounts.insert(
        1,
        Account {
            available: balance(5.0),
            held: balance(0.0),
            locked: false,
        },
    );

    let expected_errors = vec![];

    check_scenario(initial_state, transactions, final_accounts, expected_errors);
}

#[test]
fn deposit_existing_account() {
    let initial_state = State::new();

    let transactions = vec![
        TransactionRecord {
            transaction_type: TransactionType::Deposit,
            client_id: 1,
            tx_id: 1,
            amount: Some(amount(10.0)),
        },
        TransactionRecord {
            transaction_type: TransactionType::Deposit,
            client_id: 1,
            tx_id: 2,
            amount: Some(amount(5.0)),
        },
    ];

    let mut final_accounts = HashMap::new();
    final_accounts.insert(
        1,
        Account {
            available: balance(15.0),
            held: balance(0.0),
            locked: false,
        },
    );

    let expected_errors = vec![];

    check_scenario(initial_state, transactions, final_accounts, expected_errors);
}

#[test]
fn deposit_no_amount() {
    let initial_state = State::new();

    let record = TransactionRecord {
        transaction_type: TransactionType::Deposit,
        client_id: 1,
        tx_id: 2,
        amount: None,
    };
    let transactions = vec![record.clone()];

    let final_accounts = HashMap::new();

    let expected_errors = vec![TransactionError::ImproperTransaction(record)];

    check_scenario(initial_state, transactions, final_accounts, expected_errors);
}

#[test]
fn withdrawal_no_amount() {
    let initial_state = State::new();

    let record = TransactionRecord {
        transaction_type: TransactionType::Withdrawal,
        client_id: 1,
        tx_id: 2,
        amount: None,
    };
    let transactions = vec![record.clone()];

    let final_accounts = HashMap::new();

    let expected_errors = vec![TransactionError::ImproperTransaction(record)];

    check_scenario(initial_state, transactions, final_accounts, expected_errors);
}

#[test]
fn dispute_has_amount() {
    let initial_state = State::new();

    let record = TransactionRecord {
        transaction_type: TransactionType::Dispute,
        client_id: 1,
        tx_id: 2,
        amount: Some(amount(-92.0)),
    };
    let transactions = vec![record.clone()];

    let final_accounts = HashMap::new();

    let expected_errors = vec![TransactionError::ImproperTransaction(record)];

    check_scenario(initial_state, transactions, final_accounts, expected_errors);
}

#[test]
fn resolve_has_amount() {
    let initial_state = State::new();

    let record = TransactionRecord {
        transaction_type: TransactionType::Resolve,
        client_id: 1,
        tx_id: 2,
        amount: Some(amount(-92.0)),
    };
    let transactions = vec![record.clone()];

    let final_accounts = HashMap::new();

    let expected_errors = vec![TransactionError::ImproperTransaction(record)];

    check_scenario(initial_state, transactions, final_accounts, expected_errors);
}

#[test]
fn chargeback_has_amount() {
    let initial_state = State::new();

    let record = TransactionRecord {
        transaction_type: TransactionType::Chargeback,
        client_id: 1,
        tx_id: 2,
        amount: Some(amount(-92.0)),
    };
    let transactions = vec![record.clone()];

    let final_accounts = HashMap::new();

    let expected_errors = vec![TransactionError::ImproperTransaction(record)];

    check_scenario(initial_state, transactions, final_accounts, expected_errors);
}

#[test]
fn duplicate_tx_id_same_client() {
    let initial_state = State::new();

    let transactions = vec![
        TransactionRecord {
            transaction_type: TransactionType::Deposit,
            client_id: 1,
            tx_id: 2,
            amount: Some(amount(10.0)),
        },
        TransactionRecord {
            transaction_type: TransactionType::Deposit,
            client_id: 1,
            tx_id: 2,
            amount: Some(amount(5.0)),
        },
    ];

    let mut final_accounts = HashMap::new();
    final_accounts.insert(
        1,
        Account {
            available: balance(10.0),
            held: balance(0.0),
            locked: false,
        },
    );

    let expected_errors = vec![TransactionError::DuplicateTxId { tx: 2 }];

    check_scenario(initial_state, transactions, final_accounts, expected_errors);
}

#[test]
fn duplicate_tx_id_different_client() {
    let initial_state = State::new();

    let transactions = vec![
        TransactionRecord {
            transaction_type: TransactionType::Deposit,
            client_id: 1,
            tx_id: 2,
            amount: Some(amount(10.0)),
        },
        TransactionRecord {
            transaction_type: TransactionType::Deposit,
            client_id: 2,
            tx_id: 2,
            amount: Some(amount(5.0)),
        },
    ];

    let mut final_accounts = HashMap::new();
    final_accounts.insert(
        1,
        Account {
            available: balance(10.0),
            held: balance(0.0),
            locked: false,
        },
    );

    let expected_errors = vec![TransactionError::DuplicateTxId { tx: 2 }];

    check_scenario(initial_state, transactions, final_accounts, expected_errors);
}

#[test]
fn duplicate_tx_id_first_invalid() {
    let initial_state = State::new();

    let transactions = vec![
        TransactionRecord {
            transaction_type: TransactionType::Deposit,
            client_id: 1,
            tx_id: 2,
            amount: Some(amount(-10.0)),
        },
        TransactionRecord {
            transaction_type: TransactionType::Deposit,
            client_id: 2,
            tx_id: 2,
            amount: Some(amount(5.0)),
        },
    ];

    let final_accounts = HashMap::new();

    let expected_errors = vec![
        TransactionError::AmountNotPositive {
            tx: 2,
            amount: amount(-10.0),
        },
        TransactionError::DuplicateTxId { tx: 2 },
    ];

    check_scenario(initial_state, transactions, final_accounts, expected_errors);
}

#[test]
fn unordered_tx_ids() {
    let initial_state = State::new();

    let transactions = vec![
        TransactionRecord {
            transaction_type: TransactionType::Deposit,
            client_id: 1,
            tx_id: 7,
            amount: Some(amount(10.0)),
        },
        TransactionRecord {
            transaction_type: TransactionType::Withdrawal,
            client_id: 1,
            tx_id: 2,
            amount: Some(amount(5.0)),
        },
    ];

    let mut final_accounts = HashMap::new();
    final_accounts.insert(
        1,
        Account {
            available: balance(5.0),
            held: balance(0.0),
            locked: false,
        },
    );

    let expected_errors = vec![];

    check_scenario(initial_state, transactions, final_accounts, expected_errors);
}

#[test]
fn dispute_nonexistent_tx() {
    let initial_state = State::new();

    let transactions = vec![
        TransactionRecord {
            transaction_type: TransactionType::Deposit,
            client_id: 1,
            tx_id: 7,
            amount: Some(amount(10.0)),
        },
        TransactionRecord {
            transaction_type: TransactionType::Dispute,
            client_id: 1,
            tx_id: 2,
            amount: None,
        },
    ];

    let mut final_accounts = HashMap::new();
    final_accounts.insert(
        1,
        Account {
            available: balance(10.0),
            held: balance(0.0),
            locked: false,
        },
    );

    let expected_errors = vec![TransactionError::TxDoesNotExist { tx: 2, client: 1 }];

    check_scenario(initial_state, transactions, final_accounts, expected_errors);
}

#[test]
fn resolve_nonexistent_tx() {
    let initial_state = State::new();

    let transactions = vec![
        TransactionRecord {
            transaction_type: TransactionType::Deposit,
            client_id: 1,
            tx_id: 7,
            amount: Some(amount(10.0)),
        },
        TransactionRecord {
            transaction_type: TransactionType::Resolve,
            client_id: 1,
            tx_id: 2,
            amount: None,
        },
    ];

    let mut final_accounts = HashMap::new();
    final_accounts.insert(
        1,
        Account {
            available: balance(10.0),
            held: balance(0.0),
            locked: false,
        },
    );

    let expected_errors = vec![TransactionError::TxDoesNotExist { tx: 2, client: 1 }];

    check_scenario(initial_state, transactions, final_accounts, expected_errors);
}

#[test]
fn chargeback_nonexistent_tx() {
    let initial_state = State::new();

    let transactions = vec![
        TransactionRecord {
            transaction_type: TransactionType::Deposit,
            client_id: 1,
            tx_id: 7,
            amount: Some(amount(10.0)),
        },
        TransactionRecord {
            transaction_type: TransactionType::Chargeback,
            client_id: 1,
            tx_id: 2,
            amount: None,
        },
    ];

    let mut final_accounts = HashMap::new();
    final_accounts.insert(
        1,
        Account {
            available: balance(10.0),
            held: balance(0.0),
            locked: false,
        },
    );

    let expected_errors = vec![TransactionError::TxDoesNotExist { tx: 2, client: 1 }];

    check_scenario(initial_state, transactions, final_accounts, expected_errors);
}

#[test]
fn resolve_undisputed_tx() {
    let initial_state = State::new();

    let transactions = vec![
        TransactionRecord {
            transaction_type: TransactionType::Deposit,
            client_id: 1,
            tx_id: 7,
            amount: Some(amount(10.0)),
        },
        TransactionRecord {
            transaction_type: TransactionType::Resolve,
            client_id: 1,
            tx_id: 7,
            amount: None,
        },
    ];

    let mut final_accounts = HashMap::new();
    final_accounts.insert(
        1,
        Account {
            available: balance(10.0),
            held: balance(0.0),
            locked: false,
        },
    );

    let expected_errors = vec![TransactionError::TxNotDisputed { client: 1, tx: 7 }];

    check_scenario(initial_state, transactions, final_accounts, expected_errors);
}

#[test]
fn double_dispute() {
    let initial_state = State::new();

    let transactions = vec![
        TransactionRecord {
            transaction_type: TransactionType::Deposit,
            client_id: 1,
            tx_id: 7,
            amount: Some(amount(10.0)),
        },
        TransactionRecord {
            transaction_type: TransactionType::Dispute,
            client_id: 1,
            tx_id: 7,
            amount: None,
        },
        TransactionRecord {
            transaction_type: TransactionType::Dispute,
            client_id: 1,
            tx_id: 7,
            amount: None,
        },
    ];

    let mut final_accounts = HashMap::new();
    final_accounts.insert(
        1,
        Account {
            available: balance(0.0),
            held: balance(10.0),
            locked: false,
        },
    );

    let expected_errors = vec![TransactionError::TxAlreadyDisputed { client: 1, tx: 7 }];

    check_scenario(initial_state, transactions, final_accounts, expected_errors);
}

#[test]
fn dispute_after_resolve() {
    let initial_state = State::new();

    let transactions = vec![
        TransactionRecord {
            transaction_type: TransactionType::Deposit,
            client_id: 1,
            tx_id: 7,
            amount: Some(amount(10.0)),
        },
        TransactionRecord {
            transaction_type: TransactionType::Dispute,
            client_id: 1,
            tx_id: 7,
            amount: None,
        },
        TransactionRecord {
            transaction_type: TransactionType::Resolve,
            client_id: 1,
            tx_id: 7,
            amount: None,
        },
        TransactionRecord {
            transaction_type: TransactionType::Dispute,
            client_id: 1,
            tx_id: 7,
            amount: None,
        },
    ];

    let mut final_accounts = HashMap::new();
    final_accounts.insert(
        1,
        Account {
            available: balance(10.0),
            held: balance(0.0),
            locked: false,
        },
    );

    let expected_errors = vec![TransactionError::DisputeAlreadySettled { client: 1, tx: 7 }];

    check_scenario(initial_state, transactions, final_accounts, expected_errors);
}

#[test]
fn dispute_after_chargeback() {
    let initial_state = State::new();

    let transactions = vec![
        TransactionRecord {
            transaction_type: TransactionType::Deposit,
            client_id: 1,
            tx_id: 7,
            amount: Some(amount(10.0)),
        },
        TransactionRecord {
            transaction_type: TransactionType::Dispute,
            client_id: 1,
            tx_id: 7,
            amount: None,
        },
        TransactionRecord {
            transaction_type: TransactionType::Chargeback,
            client_id: 1,
            tx_id: 7,
            amount: None,
        },
        TransactionRecord {
            transaction_type: TransactionType::Dispute,
            client_id: 1,
            tx_id: 7,
            amount: None,
        },
    ];

    let mut final_accounts = HashMap::new();
    final_accounts.insert(
        1,
        Account {
            available: balance(0.0),
            held: balance(0.0),
            locked: true,
        },
    );

    let expected_errors = vec![TransactionError::DisputeAlreadySettled { client: 1, tx: 7 }];

    check_scenario(initial_state, transactions, final_accounts, expected_errors);
}

#[test]
fn resolve_after_chargeback() {
    let initial_state = State::new();

    let transactions = vec![
        TransactionRecord {
            transaction_type: TransactionType::Deposit,
            client_id: 1,
            tx_id: 7,
            amount: Some(amount(10.0)),
        },
        TransactionRecord {
            transaction_type: TransactionType::Dispute,
            client_id: 1,
            tx_id: 7,
            amount: None,
        },
        TransactionRecord {
            transaction_type: TransactionType::Chargeback,
            client_id: 1,
            tx_id: 7,
            amount: None,
        },
        TransactionRecord {
            transaction_type: TransactionType::Resolve,
            client_id: 1,
            tx_id: 7,
            amount: None,
        },
    ];

    let mut final_accounts = HashMap::new();
    final_accounts.insert(
        1,
        Account {
            available: balance(0.0),
            held: balance(0.0),
            locked: true,
        },
    );

    let expected_errors = vec![TransactionError::TxNotDisputed { client: 1, tx: 7 }];

    check_scenario(initial_state, transactions, final_accounts, expected_errors);
}

#[test]
fn chargeback_after_resolve() {
    let initial_state = State::new();

    let transactions = vec![
        TransactionRecord {
            transaction_type: TransactionType::Deposit,
            client_id: 1,
            tx_id: 7,
            amount: Some(amount(10.0)),
        },
        TransactionRecord {
            transaction_type: TransactionType::Dispute,
            client_id: 1,
            tx_id: 7,
            amount: None,
        },
        TransactionRecord {
            transaction_type: TransactionType::Resolve,
            client_id: 1,
            tx_id: 7,
            amount: None,
        },
        TransactionRecord {
            transaction_type: TransactionType::Chargeback,
            client_id: 1,
            tx_id: 7,
            amount: None,
        },
    ];

    let mut final_accounts = HashMap::new();
    final_accounts.insert(
        1,
        Account {
            available: balance(10.0),
            held: balance(0.0),
            locked: false,
        },
    );

    let expected_errors = vec![TransactionError::TxNotDisputed { client: 1, tx: 7 }];

    check_scenario(initial_state, transactions, final_accounts, expected_errors);
}

#[test]
fn deposit_after_chargeback() {
    let initial_state = State::new();

    let transactions = vec![
        TransactionRecord {
            transaction_type: TransactionType::Deposit,
            client_id: 1,
            tx_id: 7,
            amount: Some(amount(10.0)),
        },
        TransactionRecord {
            transaction_type: TransactionType::Dispute,
            client_id: 1,
            tx_id: 7,
            amount: None,
        },
        TransactionRecord {
            transaction_type: TransactionType::Chargeback,
            client_id: 1,
            tx_id: 7,
            amount: None,
        },
        TransactionRecord {
            transaction_type: TransactionType::Deposit,
            client_id: 1,
            tx_id: 63,
            amount: Some(amount(19.2)),
        },
    ];

    let mut final_accounts = HashMap::new();
    final_accounts.insert(
        1,
        Account {
            available: balance(0.0),
            held: balance(0.0),
            locked: true,
        },
    );

    let expected_errors = vec![TransactionError::AccountLocked { client: 1, tx: 63 }];

    check_scenario(initial_state, transactions, final_accounts, expected_errors);
}

#[test]
fn withdrawal_after_chargeback() {
    let initial_state = State::new();

    let transactions = vec![
        TransactionRecord {
            transaction_type: TransactionType::Deposit,
            client_id: 1,
            tx_id: 7,
            amount: Some(amount(10.0)),
        },
        TransactionRecord {
            transaction_type: TransactionType::Dispute,
            client_id: 1,
            tx_id: 7,
            amount: None,
        },
        TransactionRecord {
            transaction_type: TransactionType::Chargeback,
            client_id: 1,
            tx_id: 7,
            amount: None,
        },
        TransactionRecord {
            transaction_type: TransactionType::Withdrawal,
            client_id: 1,
            tx_id: 63,
            amount: Some(amount(19.2)),
        },
    ];

    let mut final_accounts = HashMap::new();
    final_accounts.insert(
        1,
        Account {
            available: balance(0.0),
            held: balance(0.0),
            locked: true,
        },
    );

    let expected_errors = vec![TransactionError::AccountLocked { client: 1, tx: 63 }];

    check_scenario(initial_state, transactions, final_accounts, expected_errors);
}

#[test]
fn withdraw_too_much() {
    let initial_state = State::new();

    let transactions = vec![
        TransactionRecord {
            transaction_type: TransactionType::Deposit,
            client_id: 1,
            tx_id: 7,
            amount: Some(amount(10.0)),
        },
        TransactionRecord {
            transaction_type: TransactionType::Withdrawal,
            client_id: 1,
            tx_id: 63,
            amount: Some(amount(19.2)),
        },
    ];

    let mut final_accounts = HashMap::new();
    final_accounts.insert(
        1,
        Account {
            available: balance(10.0),
            held: balance(0.0),
            locked: false,
        },
    );

    let expected_errors = vec![TransactionError::InsufficientFunds {
        client: 1,
        tx: 63,
        available: balance(10.0),
        requested: amount(19.2),
    }];

    check_scenario(initial_state, transactions, final_accounts, expected_errors);
}

#[test]
fn negative_deposit() {
    let initial_state = State::new();

    let transactions = vec![
        TransactionRecord {
            transaction_type: TransactionType::Deposit,
            client_id: 1,
            tx_id: 7,
            amount: Some(amount(10.0)),
        },
        TransactionRecord {
            transaction_type: TransactionType::Deposit,
            client_id: 1,
            tx_id: 63,
            amount: Some(amount(-19.2)),
        },
    ];

    let mut final_accounts = HashMap::new();
    final_accounts.insert(
        1,
        Account {
            available: balance(10.0),
            held: balance(0.0),
            locked: false,
        },
    );

    let expected_errors = vec![TransactionError::AmountNotPositive {
        tx: 63,
        amount: amount(-19.2),
    }];

    check_scenario(initial_state, transactions, final_accounts, expected_errors);
}

#[test]
fn negative_withdrawal() {
    let initial_state = State::new();

    let transactions = vec![
        TransactionRecord {
            transaction_type: TransactionType::Deposit,
            client_id: 1,
            tx_id: 7,
            amount: Some(amount(10.0)),
        },
        TransactionRecord {
            transaction_type: TransactionType::Withdrawal,
            client_id: 1,
            tx_id: 63,
            amount: Some(amount(-19.2)),
        },
    ];

    let mut final_accounts = HashMap::new();
    final_accounts.insert(
        1,
        Account {
            available: balance(10.0),
            held: balance(0.0),
            locked: false,
        },
    );

    let expected_errors = vec![TransactionError::AmountNotPositive {
        tx: 63,
        amount: amount(-19.2),
    }];

    check_scenario(initial_state, transactions, final_accounts, expected_errors);
}

#[test]
fn dispute_failed_tx() {
    let initial_state = State::new();

    let transactions = vec![
        TransactionRecord {
            transaction_type: TransactionType::Deposit,
            client_id: 1,
            tx_id: 7,
            amount: Some(amount(-10.0)),
        },
        TransactionRecord {
            transaction_type: TransactionType::Dispute,
            client_id: 1,
            tx_id: 7,
            amount: None,
        },
    ];

    let final_accounts = HashMap::new();

    let expected_errors = vec![
        TransactionError::AmountNotPositive {
            tx: 7,
            amount: amount(-10.0),
        },
        TransactionError::DisputedTxFailed { tx: 7 },
    ];

    check_scenario(initial_state, transactions, final_accounts, expected_errors);
}
