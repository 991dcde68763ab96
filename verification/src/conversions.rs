use vstd::prelude::*;
use vstd::std_specs::convert::FromSpecImpl;

use crate::types::{Chargeback, Deposit, Dispute, Resolve, Withdrawal};
use crate::types::{TransactionRecord, TransactionType};

verus! {

// Each kind of event can be written as the record that carries it: the
// same client and transaction, and the amount where the kind has one.
impl From<Deposit> for TransactionRecord {
    fn from(t: Deposit) -> (record: Self) {
        Self {
            transaction_type: TransactionType::Deposit,
            client_id: t.client_id,
            tx_id: t.tx_id,
            amount: Some(t.amount),
        }
    }
}

impl FromSpecImpl<Deposit> for TransactionRecord {
    open spec fn obeys_from_spec() -> bool {
        true
    }

    open spec fn from_spec(t: Deposit) -> Self {
        TransactionRecord {
            transaction_type: TransactionType::Deposit,
            client_id: t.client_id,
            tx_id: t.tx_id,
            amount: Some(t.amount),
        }
    }
}

impl From<Withdrawal> for TransactionRecord {
    fn from(t: Withdrawal) -> (record: Self) {
        Self {
            transaction_type: TransactionType::Withdrawal,
            client_id: t.client_id,
            tx_id: t.tx_id,
            amount: Some(t.amount),
        }
    }
}

impl FromSpecImpl<Withdrawal> for TransactionRecord {
    open spec fn obeys_from_spec() -> bool {
        true
    }

    open spec fn from_spec(t: Withdrawal) -> Self {
        TransactionRecord {
            transaction_type: TransactionType::Withdrawal,
            client_id: t.client_id,
            tx_id: t.tx_id,
            amount: Some(t.amount),
        }
    }
}

impl From<Dispute> for TransactionRecord {
    fn from(t: Dispute) -> (record: Self) {
        Self {
            transaction_type: TransactionType::Dispute,
            client_id: t.client_id,
            tx_id: t.tx_id,
            amount: None,
        }
    }
}

impl FromSpecImpl<Dispute> for TransactionRecord {
    open spec fn obeys_from_spec() -> bool {
        true
    }

    open spec fn from_spec(t: Dispute) -> Self {
        TransactionRecord {
            transaction_type: TransactionType::Dispute,
            client_id: t.client_id,
            tx_id: t.tx_id,
            amount: None,
        }
    }
}

impl From<Resolve> for TransactionRecord {
    fn from(t: Resolve) -> (record: Self) {
        Self {
            transaction_type: TransactionType::Resolve,
            client_id: t.client_id,
            tx_id: t.tx_id,
            amount: None,
        }
    }
}

impl FromSpecImpl<Resolve> for TransactionRecord {
    open spec fn obeys_from_spec() -> bool {
        true
    }

    open spec fn from_spec(t: Resolve) -> Self {
        TransactionRecord {
            transaction_type: TransactionType::Resolve,
            client_id: t.client_id,
            tx_id: t.tx_id,
            amount: None,
        }
    }
}

impl From<Chargeback> for TransactionRecord {
    fn from(t: Chargeback) -> (record: Self) {
        Self {
            transaction_type: TransactionType::Chargeback,
            client_id: t.client_id,
            tx_id: t.tx_id,
            amount: None,
        }
    }
}

impl FromSpecImpl<Chargeback> for TransactionRecord {
    open spec fn obeys_from_spec() -> bool {
        true
    }

    open spec fn from_spec(t: Chargeback) -> Self {
        TransactionRecord {
            transaction_type: TransactionType::Chargeback,
            client_id: t.client_id,
            tx_id: t.tx_id,
            amount: None,
        }
    }
}

} // verus!
