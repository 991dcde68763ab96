use std::collections::{HashMap, HashSet};

use payments_engine_example::account::{AccountAccess, UnlockedAccountFeatures, WrapsAccount};
use payments_engine_example::state::{AccountsState, DisputesState, State, TransactionsState};
use payments_engine_example::types::{
    Account, ClientId, Deposit, TransactionContainer, TransactionError, TransactionId, Withdrawal,
};

fn ids(values: &[TransactionId]) -> HashSet<TransactionId> {
    values.iter().copied().collect()
}

fn applied_deposit(client_id: ClientId, tx_id: TransactionId) -> TransactionContainer {
    TransactionContainer::Deposit(Ok(Deposit {
        client_id,
        tx_id,
        amount: 10,
    }))
}

#[test]
fn new_state_is_empty() {
    let state = State::new();
    assert_eq!(state.accounts.get(1), None);
    assert_eq!(state.accounts.iter().count(), 0);
    assert!(!state.transactions.tx_exists(1));
    assert_eq!(state.transactions.get(1, 1), None);
    assert!(!state.disputes.is_disputed(1, 1));
    assert!(!state.disputes.is_settled(1, 1));
}

#[test]
fn accounts_get_or_default_creates_an_empty_account() {
    let mut accounts = AccountsState::default();
    assert_eq!(accounts.get(4), None);
    assert_eq!(
        *accounts.get_or_default(4),
        Account {
            available: 0,
            held: 0,
            locked: false
        }
    );
    assert_eq!(
        accounts.get(4),
        Some(&Account {
            available: 0,
            held: 0,
            locked: false
        })
    );
    assert_eq!(accounts.get(5), None);
}

#[test]
fn accounts_get_or_default_keeps_an_account_that_is_there() {
    let mut inner = HashMap::new();
    inner.insert(
        4,
        Account {
            available: 7,
            held: 3,
            locked: true,
        },
    );
    let mut accounts = AccountsState::from(inner);
    assert_eq!(
        *accounts.get_or_default(4),
        Account {
            available: 7,
            held: 3,
            locked: true
        }
    );
}

#[test]
fn accounts_get_mut_gives_no_handle_for_an_unknown_client() {
    let mut accounts = AccountsState::default();
    assert!(accounts.get_mut(1).is_none());
    assert_eq!(accounts.get(1), None);
}

#[test]
fn accounts_get_mut_reaches_the_stored_account() {
    let mut accounts = AccountsState::default();
    accounts.get_or_default(1);
    match accounts.get_mut(1) {
        Some(AccountAccess::Unlocked(mut account)) => {
            account.modify_balances_for_deposit(&Deposit {
                client_id: 1,
                tx_id: 1,
                amount: 25,
            });
            account.lock();
        }
        _ => panic!("a new account is not locked"),
    }
    assert_eq!(
        accounts.get(1),
        Some(&Account {
            available: 25,
            held: 0,
            locked: true
        })
    );
    assert!(matches!(accounts.get_mut(1), Some(AccountAccess::Locked(_))));
}

#[test]
fn accounts_get_mut_or_default_creates_and_reaches_the_account() {
    let mut accounts = AccountsState::default();
    match accounts.get_mut_or_default(9) {
        AccountAccess::Unlocked(mut account) => {
            assert_eq!(
                *account.get_account(),
                Account {
                    available: 0,
                    held: 0,
                    locked: false
                }
            );
            account.modify_balances_for_withdrawal(&Withdrawal {
                client_id: 9,
                tx_id: 1,
                amount: 4,
            });
        }
        AccountAccess::Locked(_) => panic!("a new account is not locked"),
    }
    assert_eq!(
        accounts.get(9),
        Some(&Account {
            available: -4,
            held: 0,
            locked: false
        })
    );
}

#[test]
fn accounts_iter_walks_every_account_once() {
    let mut accounts = AccountsState::default();
    accounts.get_or_default(3);
    accounts.get_or_default(1);
    accounts.get_or_default(2);
    accounts.get_or_default(3);
    let mut clients: Vec<ClientId> = accounts.iter().map(|(client_id, _)| *client_id).collect();
    clients.sort();
    assert_eq!(clients, vec![1, 2, 3]);
}

#[test]
fn transactions_insert_logs_under_client_and_id() {
    let mut transactions = TransactionsState::default();
    transactions.insert(1, 7, applied_deposit(1, 7));
    assert!(transactions.tx_exists(7));
    assert!(!transactions.tx_exists(8));
    assert_eq!(transactions.get(1, 7), Some(&applied_deposit(1, 7)));
    assert_eq!(transactions.get(2, 7), None);
    assert_eq!(transactions.get(1, 8), None);
}

#[test]
fn transactions_insert_never_replaces() {
    let mut transactions = TransactionsState::default();
    transactions.insert(1, 7, applied_deposit(1, 7));
    transactions.insert(
        1,
        7,
        TransactionContainer::Deposit(Err(TransactionError::DuplicateTxId { tx: 7 })),
    );
    assert_eq!(transactions.get(1, 7), Some(&applied_deposit(1, 7)));
    // The id is known, so nothing is logged under another client either.
    transactions.insert(2, 7, applied_deposit(2, 7));
    assert_eq!(transactions.get(2, 7), None);
    assert_eq!(transactions.get_tx_ids_by_client(2), ids(&[]));
}

#[test]
fn transactions_ids_by_client() {
    let mut transactions = TransactionsState::default();
    transactions.insert(1, 7, applied_deposit(1, 7));
    transactions.insert(2, 8, applied_deposit(2, 8));
    transactions.insert(1, 9, applied_deposit(1, 9));
    assert_eq!(transactions.get_tx_ids_by_client(1), ids(&[7, 9]));
    assert_eq!(transactions.get_tx_ids_by_client(2), ids(&[8]));
    assert_eq!(transactions.get_tx_ids_by_client(3), ids(&[]));
}

#[test]
fn dispute_tx_marks_once() {
    let mut disputes = DisputesState::default();
    assert_eq!(disputes.dispute_tx(1, 7), Ok(()));
    assert!(disputes.is_disputed(1, 7));
    assert!(!disputes.is_disputed(2, 7));
    assert!(!disputes.is_disputed(1, 8));
    assert!(!disputes.is_settled(1, 7));
    assert_eq!(
        disputes.dispute_tx(1, 7),
        Err(TransactionError::TxAlreadyDisputed { client: 1, tx: 7 })
    );
    assert!(disputes.is_disputed(1, 7));
}

#[test]
fn settle_dispute_needs_an_active_dispute() {
    let mut disputes = DisputesState::default();
    assert_eq!(
        disputes.settle_dispute(1, 7),
        Err(TransactionError::TxNotDisputed { client: 1, tx: 7 })
    );
    assert!(!disputes.is_settled(1, 7));
    assert_eq!(disputes.dispute_tx(1, 7), Ok(()));
    assert_eq!(
        disputes.settle_dispute(2, 7),
        Err(TransactionError::TxNotDisputed { client: 2, tx: 7 })
    );
    assert_eq!(
        disputes.settle_dispute(1, 8),
        Err(TransactionError::TxNotDisputed { client: 1, tx: 8 })
    );
    assert_eq!(disputes.settle_dispute(1, 7), Ok(()));
    assert!(disputes.is_settled(1, 7));
    assert!(!disputes.is_disputed(1, 7));
    assert_eq!(
        disputes.settle_dispute(1, 7),
        Err(TransactionError::TxNotDisputed { client: 1, tx: 7 })
    );
}

#[test]
fn settled_is_terminal() {
    let mut disputes = DisputesState::default();
    assert_eq!(disputes.dispute_tx(1, 7), Ok(()));
    assert_eq!(disputes.settle_dispute(1, 7), Ok(()));
    // What was settled cannot be disputed again, and stays as it is.
    assert_eq!(
        disputes.dispute_tx(1, 7),
        Err(TransactionError::DisputeAlreadySettled { client: 1, tx: 7 })
    );
    assert!(disputes.is_settled(1, 7));
    assert!(!disputes.is_disputed(1, 7));
    assert_eq!(
        disputes.settle_dispute(1, 7),
        Err(TransactionError::TxNotDisputed { client: 1, tx: 7 })
    );
    assert!(disputes.is_settled(1, 7));
    assert!(!disputes.is_disputed(1, 7));
    assert_eq!(disputes.get_disputed_tx_ids_by_client(1), ids(&[]));
    assert_eq!(disputes.get_settled_tx_ids_by_client(1), ids(&[7]));
    // Another transaction of the client is not touched by this.
    assert_eq!(disputes.dispute_tx(1, 8), Ok(()));
    assert!(disputes.is_disputed(1, 8));
}

#[test]
fn refused_marking_changes_nothing() {
    let mut disputes = DisputesState::default();
    assert_eq!(disputes.dispute_tx(1, 7), Ok(()));
    assert_eq!(
        disputes.dispute_tx(1, 7),
        Err(TransactionError::TxAlreadyDisputed { client: 1, tx: 7 })
    );
    assert!(disputes.is_disputed(1, 7));
    assert!(!disputes.is_settled(1, 7));
    assert_eq!(disputes.get_disputed_tx_ids_by_client(1), ids(&[7]));
    assert_eq!(disputes.get_settled_tx_ids_by_client(1), ids(&[]));
}

#[test]
fn disputed_and_settled_ids_by_client() {
    let mut disputes = DisputesState::default();
    assert_eq!(disputes.get_disputed_tx_ids_by_client(1), ids(&[]));
    assert_eq!(disputes.get_settled_tx_ids_by_client(1), ids(&[]));
    assert_eq!(disputes.dispute_tx(1, 7), Ok(()));
    assert_eq!(disputes.dispute_tx(1, 8), Ok(()));
    assert_eq!(disputes.dispute_tx(2, 9), Ok(()));
    assert_eq!(disputes.settle_dispute(1, 8), Ok(()));
    assert_eq!(disputes.get_disputed_tx_ids_by_client(1), ids(&[7]));
    assert_eq!(disputes.get_settled_tx_ids_by_client(1), ids(&[8]));
    assert_eq!(disputes.get_disputed_tx_ids_by_client(2), ids(&[9]));
    assert_eq!(disputes.get_settled_tx_ids_by_client(2), ids(&[]));
}
