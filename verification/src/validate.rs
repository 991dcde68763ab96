use vstd::prelude::*;

use crate::account::{AccountAccess, BaseAccount, BaseAccountFeatures, UnlockedAccount};
use crate::account::WrapsAccount;
use crate::state::{account_or_empty, AccountsState, DisputesState, DisputesView};
use crate::state::{TransactionsState, TransactionsView};
use crate::traits::{Disputable, PostDispute, Transaction};
use crate::types::{AccountView, Amount, Balance, ClientId, TransactionId};
use crate::types::{Deposit, Dispute, Withdrawal};
use crate::types::{refusal, Outcome, TransactionContainer, TransactionError, TransactionType};

verus! {

/// The character that stands for a digit from 0 to 9.
pub open spec fn digit_char(digit: nat) -> char {
    if digit == 0 {
        '0'
    } else if digit == 1 {
        '1'
    } else if digit == 2 {
        '2'
    } else if digit == 3 {
        '3'
    } else if digit == 4 {
        '4'
    } else if digit == 5 {
        '5'
    } else if digit == 6 {
        '6'
    } else if digit == 7 {
        '7'
    } else if digit == 8 {
        '8'
    } else {
        '9'
    }
}

/// A number in decimal digits, without sign and without leading zeros.
pub open spec fn decimal_digits(number: nat) -> Seq<char>
    decreases number,
{
    if number < 10 {
        seq![digit_char(number)]
    } else {
        decimal_digits(number / 10).push(digit_char(number % 10))
    }
}

/// The text that reports a transaction whose client has no account.
pub open spec fn missing_client_text(tx_id: TransactionId, client_id: ClientId) -> Seq<char> {
    "Disputed transaction "@ + decimal_digits(tx_id as nat)
        + " refers to nonexistent client "@ + decimal_digits(client_id as nat)
}

/// The text that reports a disputed transaction that the log does not hold
/// as an applied deposit.
pub open spec fn unretrievable_text(tx_id: TransactionId) -> Seq<char> {
    "Cannot retrieve actively disputed transaction "@ + decimal_digits(tx_id as nat)
}

/// Calls `format!` to say that the client of a transaction has no account:
/// the words of the message, with the two numbers written in decimal
/// digits where they belong.
#[verifier::external_body]
fn missing_client_message(tx_id: TransactionId, client_id: ClientId) -> (message: String)
    ensures
        message@ == missing_client_text(tx_id, client_id),
{
    format!("Disputed transaction {} refers to nonexistent client {}", tx_id, client_id)
}

/// Calls `format!` to say that a disputed transaction cannot be had from
/// the log: the words of the message, followed by the number in decimal
/// digits.
#[verifier::external_body]
fn unretrievable_message(tx_id: TransactionId) -> (message: String)
    ensures
        message@ == unretrievable_text(tx_id),
{
    format!("Cannot retrieve actively disputed transaction {}", tx_id)
}

/// What the ledger answers to a deposit. The checks are made in this
/// order: the id must be new, the amount positive, the account not locked.
/// A client without an account counts as having an empty one.
pub open spec fn deposit_outcome(
    deposit: Deposit,
    accounts: Map<ClientId, AccountView>,
    transactions: TransactionsView,
) -> Outcome<Deposit> {
    if transactions.tx_ids.contains(deposit.tx_id) {
        Outcome::Rejected(TransactionError::DuplicateTxId { tx: deposit.tx_id })
    } else if deposit.amount <= 0 {
        Outcome::Rejected(
            TransactionError::AmountNotPositive { tx: deposit.tx_id, amount: deposit.amount },
        )
    } else if account_or_empty(accounts, deposit.client_id).locked {
        Outcome::Rejected(
            TransactionError::AccountLocked { client: deposit.client_id, tx: deposit.tx_id },
        )
    } else {
        Outcome::Accepted(deposit)
    }
}

/// What the ledger answers to a withdrawal. The checks are made in this
/// order: the id must be new, the amount positive, the account not locked,
/// and the available funds must cover the amount. A client without an
/// account counts as having an empty one, so that it has no funds.
pub open spec fn withdrawal_outcome(
    withdrawal: Withdrawal,
    accounts: Map<ClientId, AccountView>,
    transactions: TransactionsView,
) -> Outcome<Withdrawal> {
    let account = account_or_empty(accounts, withdrawal.client_id);
    if transactions.tx_ids.contains(withdrawal.tx_id) {
        Outcome::Rejected(TransactionError::DuplicateTxId { tx: withdrawal.tx_id })
    } else if withdrawal.amount <= 0 {
        Outcome::Rejected(
            TransactionError::AmountNotPositive {
                tx: withdrawal.tx_id,
                amount: withdrawal.amount,
            },
        )
    } else if account.locked {
        Outcome::Rejected(
            TransactionError::AccountLocked { client: withdrawal.client_id, tx: withdrawal.tx_id },
        )
    } else if account.available >= withdrawal.amount {
        Outcome::Accepted(withdrawal)
    } else {
        Outcome::Rejected(
            TransactionError::InsufficientFunds {
                client: withdrawal.client_id,
                tx: withdrawal.tx_id,
                requested: withdrawal.amount,
                available: account.available as Balance,
            },
        )
    }
}

/// What the ledger answers to a dispute over a deposit that was applied
/// for `tx_client`. The checks are made in this order: the clients must
/// agree, the deposit must not be under dispute, and no dispute over it
/// may have been settled. An account that is locked is no obstacle. That
/// the client has no account means that the ledger contradicts itself.
pub open spec fn applied_dispute_outcome(
    dispute: Dispute,
    tx_client: ClientId,
    accounts: Map<ClientId, AccountView>,
    disputes: DisputesView,
) -> Outcome<()> {
    if dispute.client_id != tx_client {
        Outcome::Rejected(
            TransactionError::ClientMismatch {
                tx: dispute.tx_id,
                tx_client,
                dispute_client: dispute.client_id,
            },
        )
    } else if disputes.active.contains((dispute.client_id, dispute.tx_id)) {
        Outcome::Rejected(
            TransactionError::TxAlreadyDisputed { client: dispute.client_id, tx: dispute.tx_id },
        )
    } else if disputes.settled.contains((dispute.client_id, dispute.tx_id)) {
        Outcome::Rejected(
            TransactionError::DisputeAlreadySettled {
                client: dispute.client_id,
                tx: dispute.tx_id,
            },
        )
    } else if !accounts.contains_key(dispute.client_id) {
        Outcome::Inconsistent(missing_client_text(dispute.tx_id, dispute.client_id))
    } else {
        Outcome::Accepted(())
    }
}

/// What the ledger answers to a dispute: the disputed deposit, or why the
/// dispute is refused. The transaction must have been logged under the
/// client and the id of the dispute, it must be a deposit, and the deposit
/// must have been applied; then [`applied_dispute_outcome`] decides.
pub open spec fn dispute_outcome(
    dispute: Dispute,
    accounts: Map<ClientId, AccountView>,
    transactions: TransactionsView,
    disputes: DisputesView,
) -> Outcome<Deposit> {
    let key = (dispute.client_id, dispute.tx_id);
    if !transactions.by_client.contains_key(key) {
        Outcome::Rejected(
            TransactionError::TxDoesNotExist { client: dispute.client_id, tx: dispute.tx_id },
        )
    } else {
        match transactions.by_client[key] {
            TransactionContainer::Withdrawal(_) => Outcome::Rejected(
                TransactionError::InvalidDispute {
                    tx: dispute.tx_id,
                    tx_type: TransactionType::Withdrawal,
                },
            ),
            TransactionContainer::Deposit(Err(_)) => Outcome::Rejected(
                TransactionError::DisputedTxFailed { tx: dispute.tx_id },
            ),
            TransactionContainer::Deposit(Ok(deposit)) => applied_dispute_outcome(
                dispute,
                deposit.client_id,
                accounts,
                disputes,
            ).with(deposit),
        }
    }
}

/// What the ledger answers to a resolve or a chargeback of `client_id`
/// over `tx_id`, where the log holds an applied deposit for `tx_client`
/// under them. The clients must agree, and the deposit must be under
/// dispute. That the client has no account means that the ledger
/// contradicts itself.
pub open spec fn applied_post_dispute_outcome(
    client_id: ClientId,
    tx_id: TransactionId,
    tx_client: ClientId,
    accounts: Map<ClientId, AccountView>,
    disputes: DisputesView,
) -> Outcome<()> {
    if client_id != tx_client {
        Outcome::Rejected(
            TransactionError::ClientMismatch { tx: tx_id, tx_client, dispute_client: client_id },
        )
    } else if !disputes.active.contains((client_id, tx_id)) {
        Outcome::Rejected(TransactionError::TxNotDisputed { client: client_id, tx: tx_id })
    } else if !accounts.contains_key(client_id) {
        Outcome::Inconsistent(missing_client_text(tx_id, client_id))
    } else {
        Outcome::Accepted(())
    }
}

/// What the ledger answers to a resolve or a chargeback of `client_id`
/// over `tx_id`: the disputed deposit, or why the event is refused. The
/// transaction must have been logged under them. Where the log holds an
/// applied deposit, [`applied_post_dispute_outcome`] decides. Anything
/// else in the log cannot be under dispute: the event is refused because
/// the transaction is not disputed, and if the ledger says that it is, the
/// ledger contradicts itself.
pub open spec fn post_dispute_outcome(
    client_id: ClientId,
    tx_id: TransactionId,
    accounts: Map<ClientId, AccountView>,
    transactions: TransactionsView,
    disputes: DisputesView,
) -> Outcome<Deposit> {
    let key = (client_id, tx_id);
    if !transactions.by_client.contains_key(key) {
        Outcome::Rejected(TransactionError::TxDoesNotExist { client: client_id, tx: tx_id })
    } else {
        match transactions.by_client[key] {
            TransactionContainer::Deposit(Ok(deposit)) => applied_post_dispute_outcome(
                client_id,
                tx_id,
                deposit.client_id,
                accounts,
                disputes,
            ).with(deposit),
            _ => if disputes.active.contains(key) {
                Outcome::Inconsistent(unretrievable_text(tx_id))
            } else {
                Outcome::Rejected(TransactionError::TxNotDisputed { client: client_id, tx: tx_id })
            },
        }
    }
}

/// Refuses an id that the log knows already, whoever used it and for
/// whatever, and whether that event was applied or refused: an id is used
/// once.
pub fn check_for_duplicate_tx_id(tx_id: TransactionId, transactions: &TransactionsState) -> (result:
    Result<(), TransactionError>)
    ensures
        result == if transactions@.tx_ids.contains(tx_id) {
            Err::<(), _>(TransactionError::DuplicateTxId { tx: tx_id })
        } else {
            Ok(())
        },
{
    if transactions.tx_exists(tx_id) {
        Err(TransactionError::DuplicateTxId { tx: tx_id })
    } else {
        Ok(())
    }
}

/// Refuses an amount that is zero or negative.
pub fn check_for_positive_amount(tx: TransactionId, amount: Amount) -> (result: Result<
    (),
    TransactionError,
>)
    ensures
        result == if amount > 0 {
            Ok::<(), TransactionError>(())
        } else {
            Err(TransactionError::AmountNotPositive { tx, amount })
        },
{
    if amount > 0 {
        Ok(())
    } else {
        Err(TransactionError::AmountNotPositive { tx, amount })
    }
}

/// Decides on a deposit as [`deposit_outcome`] says. Where the deposit is
/// valid, it comes back with a handle on the client's account, which is
/// created empty if the client had none: what is done through the handle is
/// done to that account. Where it is not, the accounts are left as they
/// were.
pub fn validate_deposit<'a, 't>(
    deposit: Deposit,
    accounts: &'a mut AccountsState,
    transactions: &'t TransactionsState,
) -> (result: Result<(Deposit, UnlockedAccount<'a>), TransactionError>)
    ensures
        match result {
            Ok((valid, account)) => {
                &&& deposit_outcome(deposit, old(accounts)@, transactions@) == Outcome::Accepted(
                    valid,
                )
                &&& account.account()@ == account_or_empty(old(accounts)@, deposit.client_id)
                &&& final(accounts)@ == old(accounts)@.insert(
                    deposit.client_id,
                    (*final(account.0))@,
                )
            },
            Err(error) => {
                &&& deposit_outcome(deposit, old(accounts)@, transactions@) == refusal::<Deposit>(
                    error,
                )
                &&& final(accounts)@ == old(accounts)@
            },
        },
{
    if let Err(error) = check_for_duplicate_tx_id(deposit.tx_id, transactions) {
        return Err(error);
    }
    if let Err(error) = check_for_positive_amount(deposit.tx_id, deposit.amount) {
        return Err(error);
    }
    match accounts.get_mut_or_default(deposit.client_id) {
        AccountAccess::Unlocked(account) => Ok((deposit, account)),
        AccountAccess::Locked(_) => Err(
            TransactionError::AccountLocked { client: deposit.client_id, tx: deposit.tx_id },
        ),
    }
}

/// Decides on a withdrawal as [`withdrawal_outcome`] says. Where the
/// withdrawal is valid, it comes back with a handle on the client's
/// account: what is done through the handle is done to that account. The
/// accounts hold the same clients as before in either case.
pub fn validate_withdrawal<'a, 't>(
    withdrawal: Withdrawal,
    accounts: &'a mut AccountsState,
    transactions: &'t TransactionsState,
) -> (result: Result<(Withdrawal, UnlockedAccount<'a>), TransactionError>)
    ensures
        match result {
            Ok((valid, account)) => {
                &&& withdrawal_outcome(withdrawal, old(accounts)@, transactions@)
                    == Outcome::Accepted(valid)
                &&& old(accounts)@.contains_key(withdrawal.client_id)
                &&& account.account()@ == old(accounts)@[withdrawal.client_id]
                &&& final(accounts)@ == old(accounts)@.insert(
                    withdrawal.client_id,
                    (*final(account.0))@,
                )
            },
            Err(error) => {
                &&& withdrawal_outcome(withdrawal, old(accounts)@, transactions@) == refusal::<
                    Withdrawal,
                >(error)
                &&& final(accounts)@ == old(accounts)@
            },
        },
{
    if let Err(error) = check_for_duplicate_tx_id(withdrawal.tx_id, transactions) {
        return Err(error);
    }
    if let Err(error) = check_for_positive_amount(withdrawal.tx_id, withdrawal.amount) {
        return Err(error);
    }
    match accounts.get_mut(withdrawal.client_id) {
        // unlocked accounts can withdraw if they have enough funds
        Some(AccountAccess::Unlocked(account)) => {
            let available = account.view().available;
            if available >= withdrawal.amount as Balance {
                Ok((withdrawal, account))
            } else {
                Err(
                    TransactionError::InsufficientFunds {
                        client: withdrawal.client_id,
                        tx: withdrawal.tx_id,
                        requested: withdrawal.amount,
                        available,
                    },
                )
            }
        },
        // Locked accounts cannot withdraw
        Some(AccountAccess::Locked(_)) => Err(
            TransactionError::AccountLocked { client: withdrawal.client_id, tx: withdrawal.tx_id },
        ),
        // New accounts cannot withdraw
        None => Err(
            TransactionError::InsufficientFunds {
                client: withdrawal.client_id,
                tx: withdrawal.tx_id,
                requested: withdrawal.amount,
                available: 0,
            },
        ),
    }
}

/// Decides on a dispute over a transaction that was applied, as
/// [`applied_dispute_outcome`] says. Where the dispute is valid, the
/// transaction comes back with a handle on the client's account, for the
/// steps of a dispute and nothing else.
pub fn validate_dispute_for_successful_tx<'a, 't, 'd, D: Disputable>(
    dispute: Dispute,
    disputed_tx: &'t D,
    accounts: &'a mut AccountsState,
    disputes: &'d DisputesState,
) -> (result: Result<(&'t D, BaseAccount<'a>), TransactionError>)
    ensures
        match result {
            Ok((found, account)) => {
                &&& applied_dispute_outcome(
                    dispute,
                    disputed_tx.client_id(),
                    old(accounts)@,
                    disputes@,
                ) == Outcome::Accepted(())
                &&& found == disputed_tx
                &&& account.account()@ == old(accounts)@[dispute.client_id]
                &&& final(accounts)@ == old(accounts)@.insert(
                    dispute.client_id,
                    (*final(account.0))@,
                )
            },
            Err(error) => {
                &&& applied_dispute_outcome(
                    dispute,
                    disputed_tx.client_id(),
                    old(accounts)@,
                    disputes@,
                ) == refusal::<()>(error)
                &&& final(accounts)@ == old(accounts)@
            },
        },
{
    // The client of the dispute must be the client of the disputed
    // transaction.
    if dispute.client_id != disputed_tx.get_client_id() {
        return Err(
            TransactionError::ClientMismatch {
                tx: dispute.tx_id,
                tx_client: disputed_tx.get_client_id(),
                dispute_client: dispute.client_id,
            },
        );
    }
    let tx_id = dispute.get_tx_id();
    let client_id = dispute.get_client_id();

    // Cannot dispute an actively disputed transaction
    if disputes.is_disputed(client_id, tx_id) {
        return Err(TransactionError::TxAlreadyDisputed { client: client_id, tx: tx_id });
    }
    // Cannot dispute a settled transaction

    if disputes.is_settled(client_id, tx_id) {
        return Err(TransactionError::DisputeAlreadySettled { client: client_id, tx: tx_id });
    }
    if let Some(access) = accounts.get_mut(client_id) {
        // Unlocked access is not needed here: a locked account can still
        // be disputed.
        let account = access.inner();
        return Ok((disputed_tx, account));
    } else {
        // The deposit was applied, so the account must be there.
        return Err(TransactionError::UnexpectedError(missing_client_message(tx_id, client_id)));
    }
}

/// Decides on a dispute as [`dispute_outcome`] says. Where the dispute is
/// valid, the disputed deposit comes back with a handle on the client's
/// account: what is done through the handle is done to that account. The
/// handle offers the steps of a dispute and nothing else, whether the
/// account is locked or not. The accounts hold the same clients as before
/// in either case.
pub fn validate_dispute<'a, 't, 'd>(
    dispute: Dispute,
    accounts: &'a mut AccountsState,
    transactions: &'t TransactionsState,
    disputes: &'d DisputesState,
) -> (result: Result<(&'t Deposit, BaseAccount<'a>), TransactionError>)
    ensures
        match result {
            Ok((disputed, account)) => {
                &&& dispute_outcome(dispute, old(accounts)@, transactions@, disputes@)
                    == Outcome::Accepted(*disputed)
                &&& old(accounts)@.contains_key(dispute.client_id)
                &&& account.account()@ == old(accounts)@[dispute.client_id]
                &&& final(accounts)@ == old(accounts)@.insert(
                    dispute.client_id,
                    (*final(account.0))@,
                )
            },
            Err(error) => {
                &&& dispute_outcome(dispute, old(accounts)@, transactions@, disputes@) == refusal::<
                    Deposit,
                >(error)
                &&& final(accounts)@ == old(accounts)@
            },
        },
{
    // A dispute has no transaction id of its own: it refers to a deposit
    // or a withdrawal.
    if let Some(disputed_tx_container) = transactions.get(dispute.client_id, dispute.tx_id) {
        match disputed_tx_container.try_get_disputable() {
            // Transaction is of a disputable type and initially succeeded
            Ok(Ok(disputed_tx)) => {
                validate_dispute_for_successful_tx(dispute, disputed_tx, accounts, disputes)
            },
            // Transaction is of a disputable type but initially failed
            Ok(Err(_)) => Err(TransactionError::DisputedTxFailed { tx: dispute.tx_id }),
            // Transaction is not of a disputable type: its type is returned
            Err(tx_type) => Err(TransactionError::InvalidDispute { tx: dispute.tx_id, tx_type }),
        }
    } else {
        Err(TransactionError::TxDoesNotExist { client: dispute.client_id, tx: dispute.tx_id })
    }
}

/// Decides on a resolve or a chargeback over a transaction that was
/// applied, as [`applied_post_dispute_outcome`] says. Where the event is
/// valid, the transaction comes back with a handle on the client's
/// account, which says whether the account is locked.
pub fn validate_post_dispute_for_existing_tx<'a, 't, 'd, D: Disputable, P: PostDispute>(
    post: P,
    disputed_tx: &'t D,
    accounts: &'a mut AccountsState,
    disputes: &'d DisputesState,
) -> (result: Result<(&'t D, AccountAccess<'a>), TransactionError>)
    ensures
        match result {
            Ok((found, access)) => {
                &&& applied_post_dispute_outcome(
                    post.client_id(),
                    post.tx_id(),
                    disputed_tx.client_id(),
                    old(accounts)@,
                    disputes@,
                ) == Outcome::Accepted(())
                &&& found == disputed_tx
                &&& access.account()@ == old(accounts)@[post.client_id()]
                &&& access is Locked <==> old(accounts)@[post.client_id()].locked
                &&& final(accounts)@ == old(accounts)@.insert(
                    post.client_id(),
                    match access {
                        AccountAccess::Locked(account) => (*final(account.0))@,
                        AccountAccess::Unlocked(account) => (*final(account.0))@,
                    },
                )
            },
            Err(error) => {
                &&& applied_post_dispute_outcome(
                    post.client_id(),
                    post.tx_id(),
                    disputed_tx.client_id(),
                    old(accounts)@,
                    disputes@,
                ) == refusal::<()>(error)
                &&& final(accounts)@ == old(accounts)@
            },
        },
{
    // The client of the event must be the client of the disputed
    // transaction.
    if post.get_client_id() != disputed_tx.get_client_id() {
        return Err(
            TransactionError::ClientMismatch {
                tx: post.get_tx_id(),
                tx_client: disputed_tx.get_client_id(),
                dispute_client: post.get_client_id(),
            },
        );
    }
    let tx_id = post.get_tx_id();
    let client_id = post.get_client_id();

    // Only an actively disputed transaction can be settled.
    let disputed = disputes.is_disputed(client_id, tx_id);
    if !disputed {
        return Err(TransactionError::TxNotDisputed { client: client_id, tx: tx_id });
    }
    if let Some(access) = accounts.get_mut(client_id) {
        return Ok((disputed_tx, access));
    } else {
        // The deposit was applied, so the account must be there.
        return Err(TransactionError::UnexpectedError(missing_client_message(tx_id, client_id)));
    }
}

/// Decides on a resolve or a chargeback as [`post_dispute_outcome`] says.
/// Where the event is valid, the disputed deposit comes back with a handle
/// on the client's account, which says whether the account is locked: what
/// is done through the handle is done to that account. The accounts hold
/// the same clients as before in either case.
pub fn validate_post_dispute<'a, 't, 'd, T: PostDispute>(
    post: T,
    accounts: &'a mut AccountsState,
    transactions: &'t TransactionsState,
    disputes: &'d DisputesState,
) -> (result: Result<(&'t Deposit, AccountAccess<'a>), TransactionError>)
    ensures
        match result {
            Ok((disputed, access)) => {
                &&& post_dispute_outcome(
                    post.client_id(),
                    post.tx_id(),
                    old(accounts)@,
                    transactions@,
                    disputes@,
                ) == Outcome::Accepted(*disputed)
                &&& old(accounts)@.contains_key(post.client_id())
                &&& access.account()@ == old(accounts)@[post.client_id()]
                &&& access is Locked <==> old(accounts)@[post.client_id()].locked
                &&& final(accounts)@ == old(accounts)@.insert(
                    post.client_id(),
                    match access {
                        AccountAccess::Locked(account) => (*final(account.0))@,
                        AccountAccess::Unlocked(account) => (*final(account.0))@,
                    },
                )
            },
            Err(error) => {
                &&& post_dispute_outcome(
                    post.client_id(),
                    post.tx_id(),
                    old(accounts)@,
                    transactions@,
                    disputes@,
                ) == refusal::<Deposit>(error)
                &&& final(accounts)@ == old(accounts)@
            },
        },
{
    // A resolve or a chargeback has no transaction id of its own: it
    // refers to a deposit. A locked account can still settle its disputes.
    let client_id = post.get_client_id();
    let tx_id = post.get_tx_id();

    if let Some(disputed_tx_container) = transactions.get(client_id, tx_id) {
        if let Ok(Ok(disputed_tx)) = disputed_tx_container.try_get_disputable() {
            validate_post_dispute_for_existing_tx(post, disputed_tx, accounts, disputes)
        } else if disputes.is_disputed(client_id, tx_id) {
            // What is under dispute was validated as an applied deposit.
            Err(TransactionError::UnexpectedError(unretrievable_message(tx_id)))
        } else {
            Err(TransactionError::TxNotDisputed { client: client_id, tx: tx_id })
        }
    } else {
        Err(TransactionError::TxDoesNotExist { client: client_id, tx: tx_id })
    }
}

} // verus!
