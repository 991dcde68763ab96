use vstd::prelude::*;

pub use crate::currency::{Amount, Balance};

verus! {

/// Identifies a client account.
pub type ClientId = u16;

/// Identifies a deposit or a withdrawal, and the events that refer to it.
pub type TransactionId = u32;

/// The kind of an event.
#[derive(Clone, Copy, Debug, PartialEq, Eq)]
pub enum TransactionType {
    Deposit,
    Withdrawal,
    Dispute,
    Resolve,
    Chargeback,
}

/// An event as it arrives: its kind, the client and transaction it names,
/// and an amount, which only deposits and withdrawals carry.
#[derive(Clone, Copy, Debug, PartialEq)]
pub struct TransactionRecord {
    pub transaction_type: TransactionType,
    pub client_id: ClientId,
    pub tx_id: TransactionId,
    pub amount: Option<Amount>,
}

/// Adds funds to the account of a client.
#[derive(Clone, Copy, Debug, PartialEq)]
pub struct Deposit {
    pub client_id: ClientId,
    pub tx_id: TransactionId,
    pub amount: Amount,
}

/// Takes funds from the account of a client.
#[derive(Clone, Copy, Debug, PartialEq)]
pub struct Withdrawal {
    pub client_id: ClientId,
    pub tx_id: TransactionId,
    pub amount: Amount,
}

/// Claims that a deposit was made in error: its funds are held until the
/// dispute is settled.
#[derive(Clone, Copy, Debug, PartialEq)]
pub struct Dispute {
    pub client_id: ClientId,
    pub tx_id: TransactionId,
}

/// Settles a dispute in favour of the deposit: the held funds are
/// available again.
#[derive(Clone, Copy, Debug, PartialEq)]
pub struct Resolve {
    pub client_id: ClientId,
    pub tx_id: TransactionId,
}

/// Settles a dispute against the deposit: the held funds leave the
/// account, and the account is locked.
#[derive(Clone, Copy, Debug, PartialEq)]
pub struct Chargeback {
    pub client_id: ClientId,
    pub tx_id: TransactionId,
}

/// Why an event was refused.
#[derive(Debug, PartialEq)]
pub enum TransactionError {
    /// Client attempted to withdraw more than their available funds.
    InsufficientFunds {
        client: ClientId,
        tx: TransactionId,
        requested: Amount,
        available: Balance,
    },
    /// This account is locked, and cannot deposit or withdraw.
    AccountLocked { client: ClientId, tx: TransactionId },
    /// Transaction IDs must be globally unique.
    DuplicateTxId { tx: TransactionId },
    /// Deposits and withdrawals must have positive amounts.
    AmountNotPositive { tx: TransactionId, amount: Amount },
    /// Cannot dispute an actively disputed transaction.
    TxAlreadyDisputed { client: ClientId, tx: TransactionId },
    /// The event refers to a transaction that was never logged.
    TxDoesNotExist { client: ClientId, tx: TransactionId },
    /// Only deposits can be disputed.
    InvalidDispute { tx: TransactionId, tx_type: TransactionType },
    /// An undisputed transaction cannot be resolved or charged back.
    TxNotDisputed { client: ClientId, tx: TransactionId },
    /// The disputed transaction did not succeed, so it moved no funds.
    DisputedTxFailed { tx: TransactionId },
    /// Transaction has already been disputed and settled: it cannot be
    /// disputed again.
    DisputeAlreadySettled { client: ClientId, tx: TransactionId },
    /// The client of this event is not the client of the transaction it
    /// refers to.
    ClientMismatch { tx: TransactionId, tx_client: ClientId, dispute_client: ClientId },
    /// The event's kind and its amount do not go together.
    ImproperTransaction(TransactionRecord),
    /// The ledger contradicts itself: something that an earlier event must
    /// have left behind is missing.
    UnexpectedError(String),
}

impl Clone for TransactionError {
    /// An error that is equal to this one.
    fn clone(&self) -> (copy: Self)
        ensures
            copy == *self,
    {
        match self {
            TransactionError::InsufficientFunds { client, tx, requested, available } => {
                TransactionError::InsufficientFunds {
                    client: *client,
                    tx: *tx,
                    requested: *requested,
                    available: *available,
                }
            },
            TransactionError::AccountLocked { client, tx } => TransactionError::AccountLocked {
                client: *client,
                tx: *tx,
            },
            TransactionError::DuplicateTxId { tx } => TransactionError::DuplicateTxId { tx: *tx },
            TransactionError::AmountNotPositive { tx, amount } => {
                TransactionError::AmountNotPositive { tx: *tx, amount: *amount }
            },
            TransactionError::TxAlreadyDisputed { client, tx } => {
                TransactionError::TxAlreadyDisputed { client: *client, tx: *tx }
            },
            TransactionError::TxDoesNotExist { client, tx } => TransactionError::TxDoesNotExist {
                client: *client,
                tx: *tx,
            },
            TransactionError::InvalidDispute { tx, tx_type } => TransactionError::InvalidDispute {
                tx: *tx,
                tx_type: *tx_type,
            },
            TransactionError::TxNotDisputed { client, tx } => TransactionError::TxNotDisputed {
                client: *client,
                tx: *tx,
            },
            TransactionError::DisputedTxFailed { tx } => TransactionError::DisputedTxFailed {
                tx: *tx,
            },
            TransactionError::DisputeAlreadySettled { client, tx } => {
                TransactionError::DisputeAlreadySettled { client: *client, tx: *tx }
            },
            TransactionError::ClientMismatch { tx, tx_client, dispute_client } => {
                TransactionError::ClientMismatch {
                    tx: *tx,
                    tx_client: *tx_client,
                    dispute_client: *dispute_client,
                }
            },
            TransactionError::ImproperTransaction(record) => {
                TransactionError::ImproperTransaction(*record)
            },
            TransactionError::UnexpectedError(message) => TransactionError::UnexpectedError(
                message.clone(),
            ),
        }
    }
}

/// What the engine answers to an event, seen as a mathematical value: the
/// event is accepted, it is refused for a stated reason, or the ledger was
/// found to contradict itself, with the text that says how.
pub enum Outcome<T> {
    Accepted(T),
    Rejected(TransactionError),
    Inconsistent(Seq<char>),
}

impl<T> Outcome<T> {
    /// The same outcome, with `value` as what is accepted.
    pub open spec fn with<U>(self, value: U) -> Outcome<U> {
        match self {
            Outcome::Accepted(_) => Outcome::Accepted(value),
            Outcome::Rejected(error) => Outcome::Rejected(error),
            Outcome::Inconsistent(text) => Outcome::Inconsistent(text),
        }
    }
}

/// The outcome that a refusal stands for.
pub open spec fn refusal<T>(error: TransactionError) -> Outcome<T> {
    match error {
        TransactionError::UnexpectedError(message) => Outcome::Inconsistent(message@),
        _ => Outcome::Rejected(error),
    }
}

/// The outcome that an answer of the engine stands for.
pub open spec fn outcome_of<T>(result: Result<T, TransactionError>) -> Outcome<T> {
    match result {
        Ok(value) => Outcome::Accepted(value),
        Err(error) => refusal(error),
    }
}

/// A deposit or a withdrawal as the ledger keeps it: the event itself where
/// it was applied, the reason where it was refused.
#[derive(Debug, PartialEq)]
pub enum TransactionContainer {
    Deposit(Result<Deposit, TransactionError>),
    Withdrawal(Result<Withdrawal, TransactionError>),
}

impl TransactionContainer {
    /// The kind of the logged event.
    pub open spec fn spec_tx_type(&self) -> TransactionType {
        match self {
            TransactionContainer::Deposit(_) => TransactionType::Deposit,
            TransactionContainer::Withdrawal(_) => TransactionType::Withdrawal,
        }
    }

    /// The kind of the logged event.
    #[verifier::when_used_as_spec(spec_tx_type)]
    pub fn tx_type(&self) -> (kind: TransactionType)
        ensures
            kind == self.spec_tx_type(),
    {
        match self {
            TransactionContainer::Deposit(_) => TransactionType::Deposit,
            TransactionContainer::Withdrawal(_) => TransactionType::Withdrawal,
        }
    }
}

/// The funds of one client.
#[derive(Clone, Copy, Debug, PartialEq)]
pub struct Account {
    /// Funds that the client can withdraw.
    pub available: Balance,
    /// Funds frozen while a deposit is under dispute.
    pub held: Balance,
    /// Set by a chargeback, and never cleared.
    pub locked: bool,
}

/// An account as a mathematical value, with unbounded balances.
pub struct AccountView {
    pub available: int,
    pub held: int,
    pub locked: bool,
}

impl AccountView {
    /// The account that a client has before any event: no funds, not locked.
    pub open spec fn empty() -> AccountView {
        AccountView { available: 0, held: 0, locked: false }
    }

    /// All funds of the account, available or held.
    pub open spec fn total(self) -> int {
        self.available + self.held
    }

    /// Whether both balances fit in the machine's [`Balance`].
    pub open spec fn representable(self) -> bool {
        &&& Balance::MIN <= self.available <= Balance::MAX
        &&& Balance::MIN <= self.held <= Balance::MAX
    }

    /// The account after a deposit of `amount`.
    pub open spec fn credited(self, amount: int) -> AccountView {
        AccountView { available: self.available + amount, ..self }
    }

    /// The account after a withdrawal of `amount`.
    pub open spec fn debited(self, amount: int) -> AccountView {
        AccountView { available: self.available - amount, ..self }
    }

    /// The account once a deposit of `amount` is under dispute: the funds
    /// move from available to held.
    pub open spec fn disputed(self, amount: int) -> AccountView {
        AccountView { available: self.available - amount, held: self.held + amount, ..self }
    }

    /// The account once a dispute over `amount` is resolved: the funds move
    /// back from held to available.
    pub open spec fn resolved(self, amount: int) -> AccountView {
        AccountView { available: self.available + amount, held: self.held - amount, ..self }
    }

    /// The account once a dispute over `amount` is charged back: the held
    /// funds leave the account. The lock is set separately.
    pub open spec fn charged_back(self, amount: int) -> AccountView {
        AccountView { held: self.held - amount, ..self }
    }

    /// The account with its lock set.
    pub open spec fn frozen(self) -> AccountView {
        AccountView { locked: true, ..self }
    }
}

impl View for Account {
    type V = AccountView;

    open spec fn view(&self) -> AccountView {
        AccountView { available: self.available as int, held: self.held as int, locked: self.locked }
    }
}

impl Default for Account {
    /// The account of a client before any event: no funds, not locked.
    fn default() -> (account: Self)
        ensures
            account@ == AccountView::empty(),
    {
        Account { available: 0, held: 0, locked: false }
    }
}

/// One row of the final report.
#[derive(Debug, PartialEq)]
pub struct OutputRecord {
    /// Id of the client's account.
    pub client: ClientId,
    /// Funds available: `total - held`.
    pub available: Balance,
    /// Funds under dispute: `total - available`.
    pub held: Balance,
    /// All funds: `available + held`.
    pub total: Balance,
    /// Whether a chargeback has locked the account.
    pub locked: bool,
}

impl OutputRecord {
    /// The row that reports `account` as the account of `client_id`.
    pub open spec fn spec_new(client_id: ClientId, account: AccountView) -> OutputRecord {
        OutputRecord {
            client: client_id,
            available: account.available as Balance,
            held: account.held as Balance,
            total: account.total() as Balance,
            locked: account.locked,
        }
    }

    /// The row that reports `account` as the account of `client_id`. The
    /// total must fit in a [`Balance`].
    pub fn new(client_id: ClientId, account: &Account) -> (record: Self)
        requires
            Balance::MIN <= account@.total() <= Balance::MAX,
        ensures
            record == Self::spec_new(client_id, account@),
            record.total == record.available + record.held,
    {
        OutputRecord {
            client: client_id,
            available: account.available,
            held: account.held,
            total: account.available + account.held,
            locked: account.locked,
        }
    }
}

} // verus!
