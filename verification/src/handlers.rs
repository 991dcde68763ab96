use vstd::prelude::*;

use crate::laws::lemma_handled_keeps_consistent;
use crate::record::{after_chargeback, after_deposit, after_dispute, after_resolve};
use crate::record::{after_withdrawal, record_chargeback, record_deposit, record_dispute};
use crate::record::{lemma_deposit_keeps_well_formed, lemma_dispute_keeps_well_formed};
use crate::record::{lemma_settlement_keeps_well_formed, lemma_withdrawal_keeps_well_formed};
use crate::record::{record_resolve, record_withdrawal};
use crate::state::{account_or_empty, State, StateView};
use crate::types::{Chargeback, Deposit, Dispute, Resolve, Withdrawal};
use crate::types::{outcome_of, refusal, ClientId, Outcome};
use crate::types::{TransactionContainer, TransactionError, TransactionRecord, TransactionType};
use crate::validate::{deposit_outcome, dispute_outcome, post_dispute_outcome};
use crate::validate::{validate_deposit, validate_dispute, validate_post_dispute};
use crate::validate::{validate_withdrawal, withdrawal_outcome};

verus! {

/// What a deposit does to the ledger, and the answer to it. A valid
/// deposit is applied. One that is refused is logged with the reason, so
/// that its id counts as used; the accounts and the disputes stay as they
/// were.
pub open spec fn handled_deposit(state: StateView, deposit: Deposit) -> (StateView, Outcome<()>) {
    match deposit_outcome(deposit, state.accounts, state.transactions) {
        Outcome::Accepted(valid) => (after_deposit(state, valid), Outcome::Accepted(())),
        Outcome::Rejected(error) => (
            StateView {
                transactions: state.transactions.logged(
                    deposit.client_id,
                    deposit.tx_id,
                    TransactionContainer::Deposit(Err(error)),
                ),
                ..state
            },
            Outcome::Rejected(error),
        ),
        Outcome::Inconsistent(text) => (state, Outcome::Inconsistent(text)),
    }
}

/// What a withdrawal does to the ledger, and the answer to it. A valid
/// withdrawal is applied. One that is refused is logged with the reason,
/// so that its id counts as used; the accounts and the disputes stay as
/// they were.
pub open spec fn handled_withdrawal(state: StateView, withdrawal: Withdrawal) -> (
    StateView,
    Outcome<()>,
) {
    match withdrawal_outcome(withdrawal, state.accounts, state.transactions) {
        Outcome::Accepted(valid) => (after_withdrawal(state, valid), Outcome::Accepted(())),
        Outcome::Rejected(error) => (
            StateView {
                transactions: state.transactions.logged(
                    withdrawal.client_id,
                    withdrawal.tx_id,
                    TransactionContainer::Withdrawal(Err(error)),
                ),
                ..state
            },
            Outcome::Rejected(error),
        ),
        Outcome::Inconsistent(text) => (state, Outcome::Inconsistent(text)),
    }
}

/// What a dispute does to the ledger, and the answer to it. A dispute that
/// is refused changes nothing.
pub open spec fn handled_dispute(state: StateView, dispute: Dispute) -> (StateView, Outcome<()>) {
    let outcome = dispute_outcome(dispute, state.accounts, state.transactions, state.disputes);
    match outcome {
        Outcome::Accepted(disputed) => (
            after_dispute(state, dispute.client_id, dispute.tx_id, disputed),
            Outcome::Accepted(()),
        ),
        _ => (state, outcome.with(())),
    }
}

/// What a resolve does to the ledger, and the answer to it. A resolve that
/// is refused changes nothing.
pub open spec fn handled_resolve(state: StateView, resolve: Resolve) -> (StateView, Outcome<()>) {
    let outcome = post_dispute_outcome(
        resolve.client_id,
        resolve.tx_id,
        state.accounts,
        state.transactions,
        state.disputes,
    );
    match outcome {
        Outcome::Accepted(disputed) => (
            after_resolve(state, resolve.client_id, resolve.tx_id, disputed),
            Outcome::Accepted(()),
        ),
        _ => (state, outcome.with(())),
    }
}

/// What a chargeback does to the ledger, and the answer to it. A
/// chargeback that is refused changes nothing.
pub open spec fn handled_chargeback(state: StateView, chargeback: Chargeback) -> (
    StateView,
    Outcome<()>,
) {
    let outcome = post_dispute_outcome(
        chargeback.client_id,
        chargeback.tx_id,
        state.accounts,
        state.transactions,
        state.disputes,
    );
    match outcome {
        Outcome::Accepted(disputed) => (
            after_chargeback(state, chargeback.client_id, chargeback.tx_id, disputed),
            Outcome::Accepted(()),
        ),
        _ => (state, outcome.with(())),
    }
}

/// What an event does to the ledger, and the answer to it. A deposit and a
/// withdrawal must carry an amount, the other kinds must carry none: an
/// event that breaks this is refused as improper and changes nothing. Each
/// other event is handled as its kind says.
pub open spec fn handled(state: StateView, record: TransactionRecord) -> (StateView, Outcome<()>) {
    match (record.transaction_type, record.amount) {
        (TransactionType::Deposit, Some(amount)) => handled_deposit(
            state,
            Deposit { client_id: record.client_id, tx_id: record.tx_id, amount },
        ),
        (TransactionType::Withdrawal, Some(amount)) => handled_withdrawal(
            state,
            Withdrawal { client_id: record.client_id, tx_id: record.tx_id, amount },
        ),
        (TransactionType::Dispute, None) => handled_dispute(
            state,
            Dispute { client_id: record.client_id, tx_id: record.tx_id },
        ),
        (TransactionType::Resolve, None) => handled_resolve(
            state,
            Resolve { client_id: record.client_id, tx_id: record.tx_id },
        ),
        (TransactionType::Chargeback, None) => handled_chargeback(
            state,
            Chargeback { client_id: record.client_id, tx_id: record.tx_id },
        ),
        _ => (state, Outcome::Rejected(TransactionError::ImproperTransaction(record))),
    }
}

/// Whatever the event, a well-formed ledger stays well formed.
pub proof fn lemma_handled_keeps_well_formed(state: StateView, record: TransactionRecord)
    requires
        state.well_formed(),
    ensures
        handled(state, record).0.well_formed(),
{
    let after = handled(state, record).0;
    match (record.transaction_type, record.amount) {
        (TransactionType::Deposit, Some(amount)) => {
            let deposit = Deposit { client_id: record.client_id, tx_id: record.tx_id, amount };
            if deposit_outcome(deposit, state.accounts, state.transactions) is Accepted {
                lemma_deposit_keeps_well_formed(state, deposit);
            } else {
                lemma_logging_keeps_well_formed(state, after);
            }
        },
        (TransactionType::Withdrawal, Some(amount)) => {
            let withdrawal = Withdrawal {
                client_id: record.client_id,
                tx_id: record.tx_id,
                amount,
            };
            if withdrawal_outcome(withdrawal, state.accounts, state.transactions) is Accepted {
                lemma_withdrawal_keeps_well_formed(state, withdrawal);
            } else {
                lemma_logging_keeps_well_formed(state, after);
            }
        },
        (TransactionType::Dispute, None) => {
            let dispute = Dispute { client_id: record.client_id, tx_id: record.tx_id };
            if dispute_outcome(
                dispute,
                state.accounts,
                state.transactions,
                state.disputes,
            ) is Accepted {
                lemma_dispute_keeps_well_formed(state, dispute);
            }
        },
        (TransactionType::Resolve, None) => {
            if post_dispute_outcome(
                record.client_id,
                record.tx_id,
                state.accounts,
                state.transactions,
                state.disputes,
            ) is Accepted {
                lemma_settlement_keeps_well_formed(
                    state,
                    record.client_id,
                    record.tx_id,
                );
            }
        },
        (TransactionType::Chargeback, None) => {
            if post_dispute_outcome(
                record.client_id,
                record.tx_id,
                state.accounts,
                state.transactions,
                state.disputes,
            ) is Accepted {
                lemma_settlement_keeps_well_formed(
                    state,
                    record.client_id,
                    record.tx_id,
                );
            }
        },
        _ => {},
    }
}

/// A ledger stays well formed where only its log of ids grows.
proof fn lemma_logging_keeps_well_formed(before: StateView, after: StateView)
    requires
        before.well_formed(),
        after.accounts == before.accounts,
        after.disputes == before.disputes,
        after.transactions.tx_ids.finite(),
        before.transactions.tx_ids.subset_of(after.transactions.tx_ids),
    ensures
        after.well_formed(),
{
    vstd::set_lib::lemma_len_subset(before.transactions.tx_ids, after.transactions.tx_ids);
    assert forall|client_id: ClientId| #[trigger]
        after.accounts.contains_key(client_id) implies after.within_allowance(
        after.accounts[client_id],
    ) by {
        assert(before.accounts.contains_key(client_id));
    }
}

/// A ledger stays well formed where a client without an account gets an
/// empty one, and where an account is put back as it was.
proof fn lemma_touching_keeps_well_formed(
    before: StateView,
    after: StateView,
    client_id: ClientId,
)
    requires
        before.well_formed(),
        after.accounts == before.accounts.insert(
            client_id,
            account_or_empty(before.accounts, client_id),
        ),
        after.transactions == before.transactions,
        after.disputes == before.disputes,
    ensures
        after.well_formed(),
{
    assert forall|other: ClientId| #[trigger]
        after.accounts.contains_key(other) implies after.within_allowance(
        after.accounts[other],
    ) by {
        if other != client_id {
            assert(before.accounts.contains_key(other));
        } else if before.accounts.contains_key(other) {
        }
    }
}

/// Handles a deposit: the ledger afterwards and the answer are those of
/// [`handled_deposit`].
pub fn handle_deposit(deposit: Deposit, state: &mut State) -> (result: Result<(), TransactionError>)
    requires
        old(state)@.well_formed(),
    ensures
        final(state)@ == handled_deposit(old(state)@, deposit).0,
        outcome_of(result) == handled_deposit(old(state)@, deposit).1,
        final(state)@.well_formed(),
{
    proof {
        lemma_handled_keeps_well_formed(
            old(state)@,
            TransactionRecord {
                transaction_type: TransactionType::Deposit,
                client_id: deposit.client_id,
                tx_id: deposit.tx_id,
                amount: Some(deposit.amount),
            },
        );
    }
    match validate_deposit(deposit, &mut state.accounts, &state.transactions) {
        Ok((valid_deposit, _)) => {
            proof {
                lemma_touching_keeps_well_formed(old(state)@, state@, deposit.client_id);
            }
            record_deposit(valid_deposit, state);
            proof {
                assert(state@.accounts =~= handled_deposit(old(state)@, deposit).0.accounts);
            }
            Ok(())
        },
        Err(err) => {
            state.transactions.insert(
                deposit.client_id,
                deposit.tx_id,
                TransactionContainer::Deposit(Err(err.clone())),
            );
            Err(err)
        },
    }
}

/// Handles a withdrawal: the ledger afterwards and the answer are those
/// of [`handled_withdrawal`].
pub fn handle_withdrawal(withdrawal: Withdrawal, state: &mut State) -> (result: Result<
    (),
    TransactionError,
>)
    requires
        old(state)@.well_formed(),
    ensures
        final(state)@ == handled_withdrawal(old(state)@, withdrawal).0,
        outcome_of(result) == handled_withdrawal(old(state)@, withdrawal).1,
        final(state)@.well_formed(),
{
    proof {
        lemma_handled_keeps_well_formed(
            old(state)@,
            TransactionRecord {
                transaction_type: TransactionType::Withdrawal,
                client_id: withdrawal.client_id,
                tx_id: withdrawal.tx_id,
                amount: Some(withdrawal.amount),
            },
        );
    }
    match validate_withdrawal(withdrawal, &mut state.accounts, &state.transactions) {
        Ok((valid_withdrawal, _)) => {
            proof {
                assert(state@.accounts =~= old(state)@.accounts);
            }
            record_withdrawal(valid_withdrawal, state);
            Ok(())
        },
        Err(err) => {
            state.transactions.insert(
                withdrawal.client_id,
                withdrawal.tx_id,
                TransactionContainer::Withdrawal(Err(err.clone())),
            );
            Err(err)
        },
    }
}

/// Handles a dispute: the ledger afterwards and the answer are those of
/// [`handled_dispute`].
pub fn handle_dispute(dispute: Dispute, state: &mut State) -> (result: Result<(), TransactionError>)
    requires
        old(state)@.well_formed(),
    ensures
        final(state)@ == handled_dispute(old(state)@, dispute).0,
        outcome_of(result) == handled_dispute(old(state)@, dispute).1,
        final(state)@.well_formed(),
{
    match validate_dispute(dispute, &mut state.accounts, &state.transactions, &state.disputes) {
        Ok(_) => {
            proof {
                assert(state@.accounts =~= old(state)@.accounts);
            }
            record_dispute(dispute, state);
            Ok(())
        },
        Err(err) => Err(err),
    }
}

/// Handles a resolve: the ledger afterwards and the answer are those of
/// [`handled_resolve`].
pub fn handle_resolve(resolve: Resolve, state: &mut State) -> (result: Result<(), TransactionError>)
    requires
        old(state)@.well_formed(),
    ensures
        final(state)@ == handled_resolve(old(state)@, resolve).0,
        outcome_of(result) == handled_resolve(old(state)@, resolve).1,
        final(state)@.well_formed(),
{
    match validate_post_dispute(
        resolve,
        &mut state.accounts,
        &state.transactions,
        &state.disputes,
    ) {
        Ok(_) => {
            proof {
                assert(state@.accounts =~= old(state)@.accounts);
            }
            record_resolve(resolve, state);
            Ok(())
        },
        Err(err) => Err(err),
    }
}

/// Handles a chargeback: the ledger afterwards and the answer are those
/// of [`handled_chargeback`].
pub fn handle_chargeback(chargeback: Chargeback, state: &mut State) -> (result: Result<
    (),
    TransactionError,
>)
    requires
        old(state)@.well_formed(),
    ensures
        final(state)@ == handled_chargeback(old(state)@, chargeback).0,
        outcome_of(result) == handled_chargeback(old(state)@, chargeback).1,
        final(state)@.well_formed(),
{
    match validate_post_dispute(
        chargeback,
        &mut state.accounts,
        &state.transactions,
        &state.disputes,
    ) {
        Ok(_) => {
            proof {
                assert(state@.accounts =~= old(state)@.accounts);
            }
            record_chargeback(chargeback, state);
            Ok(())
        },
        Err(err) => Err(err),
    }
}

/// Handles one event: decides whether it is valid in the ledger as it is,
/// applies it if so, and says why not otherwise. The ledger afterwards and
/// the answer are those of [`handled`]. An event that is refused does not
/// stop anything: the next one can follow, since the ledger stays well
/// formed, and consistent if it was.
pub fn handle_transaction(record: TransactionRecord, state: &mut State) -> (result: Result<
    (),
    TransactionError,
>)
    requires
        old(state)@.well_formed(),
    ensures
        final(state)@ == handled(old(state)@, record).0,
        outcome_of(result) == handled(old(state)@, record).1,
        final(state)@.well_formed(),
        old(state)@.consistent() ==> final(state)@.consistent(),
{
    proof {
        if old(state)@.consistent() {
            lemma_handled_keeps_consistent(old(state)@, record);
        }
    }
    match record {
        TransactionRecord {
            transaction_type: TransactionType::Deposit,
            client_id,
            tx_id,
            amount: Some(amount),
        } => {
            let deposit = Deposit { client_id, tx_id, amount };
            handle_deposit(deposit, state)
        },
        TransactionRecord {
            transaction_type: TransactionType::Withdrawal,
            client_id,
            tx_id,
            amount: Some(amount),
        } => {
            let withdrawal = Withdrawal { client_id, tx_id, amount };
            handle_withdrawal(withdrawal, state)
        },
        TransactionRecord {
            transaction_type: TransactionType::Dispute,
            client_id,
            tx_id,
            amount: None,
        } => {
            let dispute = Dispute { client_id, tx_id };
            handle_dispute(dispute, state)
        },
        TransactionRecord {
            transaction_type: TransactionType::Resolve,
            client_id,
            tx_id,
            amount: None,
        } => {
            let resolve = Resolve { client_id, tx_id };
            handle_resolve(resolve, state)
        },
        TransactionRecord {
            transaction_type: TransactionType::Chargeback,
            client_id,
            tx_id,
            amount: None,
        } => {
            let chargeback = Chargeback { client_id, tx_id };
            handle_chargeback(chargeback, state)
        },
        _ => Err(TransactionError::ImproperTransaction(record)),
    }
}

/// The ledger after the events were handled one after the other, each in
/// the ledger that the one before it left.
pub open spec fn replayed(state: StateView, records: Seq<TransactionRecord>) -> StateView
    decreases records.len(),
{
    if records.len() == 0 {
        state
    } else {
        handled(replayed(state, records.drop_last()), records.last()).0
    }
}

/// The answers to those of the events that were not applied, in the order
/// of the events.
pub open spec fn refusals(state: StateView, records: Seq<TransactionRecord>) -> Seq<Outcome<()>>
    decreases records.len(),
{
    if records.len() == 0 {
        Seq::empty()
    } else {
        let earlier = refusals(state, records.drop_last());
        let answer = handled(replayed(state, records.drop_last()), records.last()).1;
        if answer is Accepted {
            earlier
        } else {
            earlier.push(answer)
        }
    }
}

/// Whatever the events, a well-formed ledger stays well formed.
pub proof fn lemma_replayed_keeps_well_formed(state: StateView, records: Seq<TransactionRecord>)
    requires
        state.well_formed(),
    ensures
        replayed(state, records).well_formed(),
    decreases records.len(),
{
    if records.len() > 0 {
        lemma_replayed_keeps_well_formed(state, records.drop_last());
        lemma_handled_keeps_well_formed(replayed(state, records.drop_last()), records.last());
    }
}

/// Handles the events of a batch in their order, each in the ledger that
/// the one before it left, and gives back the errors that came up, in the
/// order of the events. An event that is refused does not stop the batch:
/// the events after it are handled all the same.
pub fn handle_tx_batch(tx_batch: Vec<TransactionRecord>, state: &mut State) -> (errors: Vec<
    TransactionError,
>)
    requires
        old(state)@.well_formed(),
    ensures
        final(state)@ == replayed(old(state)@, tx_batch@),
        final(state)@.well_formed(),
        old(state)@.consistent() ==> final(state)@.consistent(),
        errors@.len() == refusals(old(state)@, tx_batch@).len(),
        forall|i: int|
            0 <= i < errors@.len() ==> refusal::<()>(#[trigger] errors@[i]) == refusals(
                old(state)@,
                tx_batch@,
            )[i],
{
    let mut errors: Vec<TransactionError> = Vec::new();
    let mut index: usize = 0;
    proof {
        assert(tx_batch@.take(0) =~= Seq::<TransactionRecord>::empty());
    }
    while index < tx_batch.len()
        invariant
            index <= tx_batch.len(),
            state@ == replayed(old(state)@, tx_batch@.take(index as int)),
            state@.well_formed(),
            old(state)@.consistent() ==> state@.consistent(),
            errors@.len() == refusals(old(state)@, tx_batch@.take(index as int)).len(),
            forall|i: int|
                0 <= i < errors@.len() ==> refusal::<()>(#[trigger] errors@[i]) == refusals(
                    old(state)@,
                    tx_batch@.take(index as int),
                )[i],
        decreases tx_batch.len() - index,
    {
        let record = tx_batch[index];
        proof {
            let next = tx_batch@.take(index + 1);
            assert(next.drop_last() =~= tx_batch@.take(index as int));
            assert(next.last() == record);
        }
        if let Err(err) = handle_transaction(record, state) {
            errors.push(err);
        }
        index = index + 1;
    }
    proof {
        assert(tx_batch@.take(index as int) =~= tx_batch@);
    }
    errors
}

} // verus!
