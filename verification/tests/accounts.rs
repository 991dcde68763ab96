use payments_engine_example::account::{
    AccountAccess, BaseAccount, BaseAccountFeatures, LockedAccount, UnlockedAccount,
    UnlockedAccountFeatures, WrapsAccount,
};
use payments_engine_example::balances;
use payments_engine_example::traits::{AppliedTransaction, Disputable, Transaction};
use payments_engine_example::types::{
    Account, Chargeback, Deposit, Dispute, OutputRecord, Resolve, TransactionContainer,
    TransactionError, TransactionType, Withdrawal,
};

fn account(available: i128, held: i128, locked: bool) -> Account {
    Account {
        available,
        held,
        locked,
    }
}

fn deposit_of(amount: i64) -> Deposit {
    Deposit {
        client_id: 1,
        tx_id: 1,
        amount,
    }
}

#[test]
fn default_account_is_empty_and_unlocked() {
    assert_eq!(Account::default(), account(0, 0, false));
}

#[test]
fn balances_for_deposit_and_withdrawal() {
    let mut funds = account(100, 20, false);
    balances::modify_balances_for_deposit(&deposit_of(30), &mut funds);
    assert_eq!(funds, account(130, 20, false));
    balances::modify_balances_for_withdrawal(
        &Withdrawal {
            client_id: 1,
            tx_id: 2,
            amount: 50,
        },
        &mut funds,
    );
    assert_eq!(funds, account(80, 20, false));
}

#[test]
fn balances_for_the_steps_of_a_dispute() {
    let mut funds = account(100, 20, true);
    balances::modify_balances_for_dispute(&deposit_of(30), &mut funds);
    assert_eq!(funds, account(70, 50, true));
    balances::modify_balances_for_resolve(&deposit_of(30), &mut funds);
    assert_eq!(funds, account(100, 20, true));
    balances::modify_balances_for_dispute(&deposit_of(30), &mut funds);
    balances::modify_balances_for_chargeback(&deposit_of(30), &mut funds);
    assert_eq!(funds, account(70, 20, true));
}

#[test]
fn deposit_is_disputable() {
    let deposit = deposit_of(30);
    let mut funds = account(100, 0, false);
    deposit.modify_balances_for_dispute(&mut funds);
    assert_eq!(funds, account(70, 30, false));
    deposit.modify_balances_for_resolve(&mut funds);
    assert_eq!(funds, account(100, 0, false));
    deposit.modify_balances_for_dispute(&mut funds);
    deposit.modify_balances_for_chargeback(&mut funds);
    assert_eq!(funds, account(70, 0, false));
}

#[test]
fn access_tells_whether_the_account_is_locked() {
    let mut open = account(1, 2, false);
    assert!(matches!(open.access(), AccountAccess::Unlocked(_)));
    let mut closed = account(1, 2, true);
    assert!(matches!(closed.access(), AccountAccess::Locked(_)));
    assert_eq!(*closed.access().get_account(), account(1, 2, true));
}

#[test]
fn unlocked_handle_changes_the_account() {
    let mut funds = account(100, 0, false);
    {
        let mut handle = UnlockedAccount(&mut funds);
        handle.modify_balances_for_deposit(&deposit_of(5));
        handle.modify_balances_for_withdrawal(&Withdrawal {
            client_id: 1,
            tx_id: 2,
            amount: 45,
        });
        handle.modify_balances_for_dispute(&deposit_of(5));
        assert_eq!(*handle.view(), account(55, 5, false));
        handle.modify_balances_for_resolve(&deposit_of(5));
        handle.modify_balances_for_dispute(&deposit_of(5));
        handle.modify_balances_for_chargeback(&deposit_of(5));
        handle.lock();
        handle.get_mut_account().held += 1;
    }
    assert_eq!(funds, account(55, 1, true));
}

#[test]
fn locked_handle_changes_the_account() {
    let mut funds = account(100, 0, true);
    {
        let mut handle = LockedAccount(&mut funds);
        handle.modify_balances_for_dispute(&deposit_of(40));
        assert_eq!(*handle.get_account(), account(60, 40, true));
        handle.modify_balances_for_resolve(&deposit_of(40));
        handle.modify_balances_for_dispute(&deposit_of(25));
        handle.modify_balances_for_chargeback(&deposit_of(25));
    }
    assert_eq!(funds, account(75, 0, true));
}

#[test]
fn base_handle_changes_the_account() {
    let mut funds = account(100, 0, false);
    {
        let mut handle = BaseAccount(&mut funds);
        handle.modify_balances_for_dispute(&deposit_of(40));
        assert_eq!(*handle.view(), account(60, 40, false));
        handle.modify_balances_for_resolve(&deposit_of(40));
        handle.modify_balances_for_dispute(&deposit_of(25));
        handle.modify_balances_for_chargeback(&deposit_of(25));
        handle.get_mut_account().held += 3;
    }
    assert_eq!(funds, account(75, 3, false));
}

#[test]
fn access_handle_changes_the_account() {
    let mut funds = account(100, 0, false);
    {
        let mut access = funds.access();
        access.modify_balances_for_dispute(&deposit_of(40));
        assert_eq!(*access.view(), account(60, 40, false));
        access.modify_balances_for_resolve(&deposit_of(40));
        access.modify_balances_for_dispute(&deposit_of(10));
        access.modify_balances_for_chargeback(&deposit_of(10));
        access.get_mut_account().available -= 1;
    }
    assert_eq!(funds, account(89, 0, false));
}

#[test]
fn inner_keeps_the_account_and_drops_the_rights() {
    let mut funds = account(100, 0, false);
    {
        let mut base = funds.access().inner();
        assert_eq!(*base.get_account(), account(100, 0, false));
        base.modify_balances_for_dispute(&deposit_of(100));
    }
    assert_eq!(funds, account(0, 100, false));
}

#[test]
fn events_name_their_client_and_transaction() {
    let deposit = Deposit {
        client_id: 3,
        tx_id: 30,
        amount: 1,
    };
    let withdrawal = Withdrawal {
        client_id: 4,
        tx_id: 40,
        amount: 1,
    };
    let dispute = Dispute {
        client_id: 5,
        tx_id: 50,
    };
    let resolve = Resolve {
        client_id: 6,
        tx_id: 60,
    };
    let chargeback = Chargeback {
        client_id: 7,
        tx_id: 70,
    };
    assert_eq!((deposit.get_client_id(), deposit.get_tx_id()), (3, 30));
    assert_eq!((withdrawal.get_client_id(), withdrawal.get_tx_id()), (4, 40));
    assert_eq!((dispute.get_client_id(), dispute.get_tx_id()), (5, 50));
    assert_eq!((resolve.get_client_id(), resolve.get_tx_id()), (6, 60));
    assert_eq!((chargeback.get_client_id(), chargeback.get_tx_id()), (7, 70));
}

#[test]
fn container_tells_its_kind_and_what_can_be_disputed() {
    let deposit = Deposit {
        client_id: 3,
        tx_id: 30,
        amount: 1,
    };
    let withdrawal = Withdrawal {
        client_id: 4,
        tx_id: 40,
        amount: 1,
    };
    let failure = TransactionError::DuplicateTxId { tx: 30 };

    let applied = TransactionContainer::Deposit(Ok(deposit));
    assert_eq!(applied.tx_type(), TransactionType::Deposit);
    assert_eq!(applied.try_get_disputable(), Ok(&Ok(deposit)));
    let found = applied.get_transaction().expect("the deposit was applied");
    assert_eq!(found, AppliedTransaction::Deposit(deposit));
    assert_eq!((found.get_client_id(), found.get_tx_id()), (3, 30));

    let refused = TransactionContainer::Deposit(Err(failure.clone()));
    assert_eq!(refused.tx_type(), TransactionType::Deposit);
    assert_eq!(refused.try_get_disputable(), Ok(&Err(failure.clone())));
    assert_eq!(refused.get_transaction(), Err(failure.clone()));

    let taken = TransactionContainer::Withdrawal(Ok(withdrawal));
    assert_eq!(taken.tx_type(), TransactionType::Withdrawal);
    assert_eq!(taken.try_get_disputable(), Err(TransactionType::Withdrawal));
    let found = taken.get_transaction().expect("the withdrawal was applied");
    assert_eq!(found, AppliedTransaction::Withdrawal(withdrawal));
    assert_eq!((found.get_client_id(), found.get_tx_id()), (4, 40));

    let denied = TransactionContainer::Withdrawal(Err(failure.clone()));
    assert_eq!(denied.try_get_disputable(), Err(TransactionType::Withdrawal));
    assert_eq!(denied.get_transaction(), Err(failure));
}

#[test]
fn errors_can_be_cloned() {
    let errors = vec![
        TransactionError::InsufficientFunds {
            client: 1,
            tx: 2,
            requested: 3,
            available: 4,
        },
        TransactionError::AccountLocked { client: 1, tx: 2 },
        TransactionError::DuplicateTxId { tx: 2 },
        TransactionError::AmountNotPositive { tx: 2, amount: -3 },
        TransactionError::TxAlreadyDisputed { client: 1, tx: 2 },
        TransactionError::TxDoesNotExist { client: 1, tx: 2 },
        TransactionError::InvalidDispute {
            tx: 2,
            tx_type: TransactionType::Withdrawal,
        },
        TransactionError::TxNotDisputed { client: 1, tx: 2 },
        TransactionError::DisputedTxFailed { tx: 2 },
        TransactionError::DisputeAlreadySettled { client: 1, tx: 2 },
        TransactionError::ClientMismatch {
            tx: 2,
            tx_client: 1,
            dispute_client: 3,
        },
        TransactionError::ImproperTransaction(
            Dispute {
                client_id: 1,
                tx_id: 2,
            }
            .into(),
        ),
        TransactionError::UnexpectedError(String::from("something is missing")),
    ];
    for error in errors {
        assert_eq!(error.clone(), error);
    }
}

#[test]
fn output_record_reports_the_total() {
    let record = OutputRecord::new(12, &account(15_000, 2_500, true));
    assert_eq!(
        record,
        OutputRecord {
            client: 12,
            available: 15_000,
            held: 2_500,
            total: 17_500,
            locked: true,
        }
    );
    let record = OutputRecord::new(13, &account(-70_000, 100_000, false));
    assert_eq!(record.total, 30_000);
}
