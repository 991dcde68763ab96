use vstd::prelude::*;

use crate::balances;
use crate::types::{Account, Amount, ClientId, TransactionId};
use crate::types::{Chargeback, Deposit, Dispute, Resolve, Withdrawal};
use crate::types::{TransactionContainer, TransactionError, TransactionType};

verus! {

/// An event that names a client and a transaction.
pub trait Transaction {
    /// The transaction that the event names.
    spec fn tx_id(&self) -> TransactionId;

    /// The client that the event names.
    spec fn client_id(&self) -> ClientId;

    /// The transaction that the event names.
    fn get_tx_id(&self) -> (tx_id: TransactionId)
        ensures
            tx_id == self.tx_id(),
    ;

    /// The client that the event names.
    fn get_client_id(&self) -> (client_id: ClientId)
        ensures
            client_id == self.client_id(),
    ;
}

impl Transaction for Deposit {
    open spec fn tx_id(&self) -> TransactionId {
        self.tx_id
    }

    open spec fn client_id(&self) -> ClientId {
        self.client_id
    }

    #[inline]
    fn get_tx_id(&self) -> (tx_id: TransactionId) {
        self.tx_id
    }

    #[inline]
    fn get_client_id(&self) -> (client_id: ClientId) {
        self.client_id
    }
}

impl Transaction for Withdrawal {
    open spec fn tx_id(&self) -> TransactionId {
        self.tx_id
    }

    open spec fn client_id(&self) -> ClientId {
        self.client_id
    }

    #[inline]
    fn get_tx_id(&self) -> (tx_id: TransactionId) {
        self.tx_id
    }

    #[inline]
    fn get_client_id(&self) -> (client_id: ClientId) {
        self.client_id
    }
}

impl Transaction for Dispute {
    open spec fn tx_id(&self) -> TransactionId {
        self.tx_id
    }

    open spec fn client_id(&self) -> ClientId {
        self.client_id
    }

    #[inline]
    fn get_tx_id(&self) -> (tx_id: TransactionId) {
        self.tx_id
    }

    #[inline]
    fn get_client_id(&self) -> (client_id: ClientId) {
        self.client_id
    }
}

impl Transaction for Resolve {
    open spec fn tx_id(&self) -> TransactionId {
        self.tx_id
    }

    open spec fn client_id(&self) -> ClientId {
        self.client_id
    }

    #[inline]
    fn get_tx_id(&self) -> (tx_id: TransactionId) {
        self.tx_id
    }

    #[inline]
    fn get_client_id(&self) -> (client_id: ClientId) {
        self.client_id
    }
}

impl Transaction for Chargeback {
    open spec fn tx_id(&self) -> TransactionId {
        self.tx_id
    }

    open spec fn client_id(&self) -> ClientId {
        self.client_id
    }

    #[inline]
    fn get_tx_id(&self) -> (tx_id: TransactionId) {
        self.tx_id
    }

    #[inline]
    fn get_client_id(&self) -> (client_id: ClientId) {
        self.client_id
    }
}

/// A logged transaction that can be disputed, and what each step of a
/// dispute over it does to the balances of its account.
pub trait Disputable: Transaction {
    /// The funds that a dispute over the transaction freezes.
    spec fn amount(&self) -> Amount;

    /// Moves the funds from the available to the held funds.
    fn modify_balances_for_dispute(&self, account: &mut Account)
        requires
            old(account)@.disputed(self.amount() as int).representable(),
        ensures
            final(account)@ == old(account)@.disputed(self.amount() as int),
    ;

    /// Moves the funds back from the held to the available funds.
    fn modify_balances_for_resolve(&self, account: &mut Account)
        requires
            old(account)@.resolved(self.amount() as int).representable(),
        ensures
            final(account)@ == old(account)@.resolved(self.amount() as int),
    ;

    /// Removes the funds from the held funds.
    fn modify_balances_for_chargeback(&self, account: &mut Account)
        requires
            old(account)@.charged_back(self.amount() as int).representable(),
        ensures
            final(account)@ == old(account)@.charged_back(self.amount() as int),
    ;
}

impl Disputable for Deposit {
    open spec fn amount(&self) -> Amount {
        self.amount
    }

    fn modify_balances_for_dispute(&self, account: &mut Account) {
        balances::modify_balances_for_dispute(self, account);
    }

    fn modify_balances_for_resolve(&self, account: &mut Account) {
        balances::modify_balances_for_resolve(self, account);
    }

    fn modify_balances_for_chargeback(&self, account: &mut Account) {
        balances::modify_balances_for_chargeback(self, account);
    }
}

/// An event that settles a dispute: it must follow a dispute with the same
/// transaction and the same client.
pub trait PostDispute: Transaction {

}

impl PostDispute for Resolve {

}

impl PostDispute for Chargeback {

}

/// A deposit or a withdrawal that was applied, taken out of the log.
#[derive(Clone, Copy, Debug, PartialEq)]
pub enum AppliedTransaction {
    Deposit(Deposit),
    Withdrawal(Withdrawal),
}

impl Transaction for AppliedTransaction {
    open spec fn tx_id(&self) -> TransactionId {
        match self {
            AppliedTransaction::Deposit(deposit) => deposit.tx_id,
            AppliedTransaction::Withdrawal(withdrawal) => withdrawal.tx_id,
        }
    }

    open spec fn client_id(&self) -> ClientId {
        match self {
            AppliedTransaction::Deposit(deposit) => deposit.client_id,
            AppliedTransaction::Withdrawal(withdrawal) => withdrawal.client_id,
        }
    }

    fn get_tx_id(&self) -> (tx_id: TransactionId) {
        match self {
            AppliedTransaction::Deposit(deposit) => deposit.tx_id,
            AppliedTransaction::Withdrawal(withdrawal) => withdrawal.tx_id,
        }
    }

    fn get_client_id(&self) -> (client_id: ClientId) {
        match self {
            AppliedTransaction::Deposit(deposit) => deposit.client_id,
            AppliedTransaction::Withdrawal(withdrawal) => withdrawal.client_id,
        }
    }
}

impl TransactionContainer {
    /// The logged deposit's result, or the kind of a logged event that is
    /// no deposit: only deposits can be disputed.
    pub open spec fn disputable(&self) -> Result<Result<Deposit, TransactionError>, TransactionType> {
        match self {
            TransactionContainer::Deposit(result) => Ok(*result),
            TransactionContainer::Withdrawal(_) => Err(TransactionType::Withdrawal),
        }
    }

    /// The logged event where it was applied, the reason where it was
    /// refused.
    pub open spec fn transaction(&self) -> Result<AppliedTransaction, TransactionError> {
        match self {
            TransactionContainer::Deposit(Ok(deposit)) => Ok(AppliedTransaction::Deposit(*deposit)),
            TransactionContainer::Deposit(Err(error)) => Err(*error),
            TransactionContainer::Withdrawal(Ok(withdrawal)) => Ok(
                AppliedTransaction::Withdrawal(*withdrawal),
            ),
            TransactionContainer::Withdrawal(Err(error)) => Err(*error),
        }
    }

    /// The logged deposit's result, or the kind of a logged event that is
    /// no deposit.
    pub fn try_get_disputable(&self) -> (found: Result<
        &Result<Deposit, TransactionError>,
        TransactionType,
    >)
        ensures
            match found {
                Ok(result) => self.disputable() == Ok::<_, TransactionType>(*result),
                Err(kind) => self.disputable() == Err::<Result<Deposit, TransactionError>, _>(kind),
            },
    {
        match self {
            TransactionContainer::Deposit(result) => Ok(result),
            other => Err(other.tx_type()),
        }
    }

    /// The logged event where it was applied, the reason where it was
    /// refused.
    pub fn get_transaction(&self) -> (found: Result<AppliedTransaction, TransactionError>)
        ensures
            found == self.transaction(),
    {
        match self {
            TransactionContainer::Deposit(Ok(deposit)) => Ok(AppliedTransaction::Deposit(*deposit)),
            TransactionContainer::Deposit(Err(error)) => Err(error.clone()),
            TransactionContainer::Withdrawal(Ok(withdrawal)) => Ok(
                AppliedTransaction::Withdrawal(*withdrawal),
            ),
            TransactionContainer::Withdrawal(Err(error)) => Err(error.clone()),
        }
    }
}

} // verus!
