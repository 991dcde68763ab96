use vstd::prelude::*;

use crate::handlers::{handled, handled_deposit, handled_dispute, handled_withdrawal};
use crate::handlers::{handled_chargeback, handled_resolve};
use crate::state::{account_or_empty, StateView};
use crate::types::{Balance, ClientId, Outcome, TransactionId};
use crate::types::{Chargeback, Deposit, Dispute, Resolve, Withdrawal};
use crate::types::{TransactionContainer, TransactionError, TransactionRecord, TransactionType};

verus! {

/// Whether the event is a deposit or a withdrawal with its amount: the
/// kinds of event that are logged under an id of their own.
pub open spec fn carries_own_id(record: TransactionRecord) -> bool {
    &&& record.amount is Some
    &&& record.transaction_type == TransactionType::Deposit || record.transaction_type
        == TransactionType::Withdrawal
}

/// An id is used once. After a deposit or a withdrawal was handled,
/// applied or not, every later deposit or withdrawal with the same id is
/// refused as a duplicate and changes nothing, whether it names the same
/// client or another.
pub proof fn lemma_duplicate_id_rejected(
    state: StateView,
    first: TransactionRecord,
    second: TransactionRecord,
)
    requires
        carries_own_id(first),
        carries_own_id(second),
        second.tx_id == first.tx_id,
    ensures
        handled(handled(state, first).0, second).1 == Outcome::<()>::Rejected(
            TransactionError::DuplicateTxId { tx: second.tx_id },
        ),
        handled(handled(state, first).0, second).0 == handled(state, first).0,
{
    let middle = handled(state, first).0;
    assert(middle.transactions.tx_ids.contains(first.tx_id));
    lemma_known_id_rejected(middle, second);
}

/// A deposit or a withdrawal whose id the ledger knows is refused as a
/// duplicate, and the ledger stays exactly as it was.
pub proof fn lemma_known_id_rejected(state: StateView, record: TransactionRecord)
    requires
        carries_own_id(record),
        state.transactions.tx_ids.contains(record.tx_id),
    ensures
        handled(state, record).1 == Outcome::<()>::Rejected(
            TransactionError::DuplicateTxId { tx: record.tx_id },
        ),
        handled(state, record).0 == state,
{
    let after = handled(state, record).0;
    assert(after.transactions.tx_ids =~= state.transactions.tx_ids);
}

/// The order of ids means nothing. A deposit with a positive amount to an
/// account that is not locked is applied if and only if its id is new,
/// whatever ids came before it.
pub proof fn lemma_new_id_suffices(state: StateView, deposit: Deposit)
    requires
        deposit.amount > 0,
        !account_or_empty(state.accounts, deposit.client_id).locked,
    ensures
        handled_deposit(state, deposit).1 is Accepted <==> !state.transactions.tx_ids.contains(
            deposit.tx_id,
        ),
{
}

/// A dispute that is resolved leaves no trace in the balances. Where a
/// dispute is valid, the resolve that follows it is valid too, and after
/// both the accounts and the log are what they were before the dispute.
/// Only the state of the disputes remembers: the transaction is settled.
pub proof fn lemma_dispute_then_resolve(state: StateView, client_id: ClientId, tx_id: TransactionId)
    requires
        handled_dispute(state, Dispute { client_id, tx_id }).1 is Accepted,
    ensures
        ({
            let disputed = handled_dispute(state, Dispute { client_id, tx_id }).0;
            let resolved = handled_resolve(disputed, Resolve { client_id, tx_id });
            &&& resolved.1 is Accepted
            &&& resolved.0.accounts == state.accounts
            &&& resolved.0.transactions == state.transactions
            &&& resolved.0.disputes.active == state.disputes.active
            &&& resolved.0.disputes.settled == state.disputes.settled.insert((client_id, tx_id))
            &&& resolved.0.disputes.settled.contains((client_id, tx_id))
            &&& !resolved.0.disputes.active.contains((client_id, tx_id))
        }),
{
    let disputed = handled_dispute(state, Dispute { client_id, tx_id }).0;
    let resolved = handled_resolve(disputed, Resolve { client_id, tx_id }).0;
    assert(disputed.disputes.active.contains((client_id, tx_id)));
    assert(resolved.accounts =~= state.accounts);
    assert(resolved.disputes.active =~= state.disputes.active);
}

/// While a deposit is under dispute, its amount is held: the dispute takes
/// it from the available funds and adds it to the held funds, and the
/// total of the account stays what it was.
pub proof fn lemma_dispute_holds_funds(state: StateView, client_id: ClientId, tx_id: TransactionId)
    requires
        handled_dispute(state, Dispute { client_id, tx_id }).1 is Accepted,
    ensures
        ({
            let deposit = state.transactions.by_client[(client_id, tx_id)]->Deposit_0->Ok_0;
            let before = state.accounts[client_id];
            let after = handled_dispute(state, Dispute { client_id, tx_id }).0.accounts[client_id];
            &&& state.transactions.by_client[(client_id, tx_id)] matches TransactionContainer::Deposit(Ok(_))
            &&& after.available == before.available - deposit.amount
            &&& after.held == before.held + deposit.amount
            &&& after.total() == before.total()
            &&& after.locked == before.locked
        }),
{
}

/// Funds come and go by deposits, withdrawals and chargebacks only. Where
/// an event is applied, the total of its client's account grows by the
/// amount of a deposit and shrinks by the amount of a withdrawal or of the
/// deposit that is charged back; a dispute and a resolve leave the total as
/// it was.
pub proof fn lemma_total_follows_event(state: StateView, record: TransactionRecord)
    requires
        handled(state, record).1 is Accepted,
    ensures
        ({
            let before = account_or_empty(state.accounts, record.client_id);
            let after = handled(state, record).0.accounts[record.client_id];
            let key = (record.client_id, record.tx_id);
            &&& handled(state, record).0.accounts.contains_key(record.client_id)
            &&& after.total() == before.total() + match record.transaction_type {
                TransactionType::Deposit => record.amount->Some_0 as int,
                TransactionType::Withdrawal => -(record.amount->Some_0 as int),
                TransactionType::Dispute => 0,
                TransactionType::Resolve => 0,
                TransactionType::Chargeback => -(
                state.transactions.by_client[key]->Deposit_0->Ok_0.amount as int),
            }
        }),
{
}

/// A chargeback is final. Where a chargeback is valid, the held amount
/// leaves the account and the account is locked. From then on a dispute
/// over the same transaction is refused because it was settled, and a
/// deposit or a withdrawal of the same client with a new id and a positive
/// amount is refused because the account is locked.
pub proof fn lemma_chargeback_is_final(
    state: StateView,
    client_id: ClientId,
    tx_id: TransactionId,
    later: TransactionRecord,
)
    requires
        handled_chargeback(state, Chargeback { client_id, tx_id }).1 is Accepted,
        later.client_id == client_id,
    ensures
        ({
            let deposit = state.transactions.by_client[(client_id, tx_id)]->Deposit_0->Ok_0;
            let charged = handled_chargeback(state, Chargeback { client_id, tx_id }).0;
            &&& charged.accounts[client_id].available == state.accounts[client_id].available
            &&& charged.accounts[client_id].held == state.accounts[client_id].held - deposit.amount
            &&& charged.accounts[client_id].locked
            &&& charged.disputes.settled.contains((client_id, tx_id))
            &&& !charged.disputes.active.contains((client_id, tx_id))
            &&& later.transaction_type == TransactionType::Dispute && later.amount is None
                && later.tx_id == tx_id ==> handled(charged, later).1 == Outcome::<()>::Rejected(
                TransactionError::DisputeAlreadySettled { client: client_id, tx: tx_id },
            )
            &&& carries_own_id(later) && later.amount->Some_0 > 0
                && !charged.transactions.tx_ids.contains(later.tx_id) ==> handled(
                charged,
                later,
            ).1 == Outcome::<()>::Rejected(
                TransactionError::AccountLocked { client: client_id, tx: later.tx_id },
            )
        }),
{
}

/// A lock is permanent, and accounts are never removed. Whatever the
/// event, every client that had an account still has one, and an account
/// that was locked is still locked.
pub proof fn lemma_lock_is_permanent(
    state: StateView,
    record: TransactionRecord,
    client_id: ClientId,
)
    requires
        state.accounts.contains_key(client_id),
    ensures
        handled(state, record).0.accounts.contains_key(client_id),
        state.accounts[client_id].locked ==> handled(state, record).0.accounts[client_id].locked,
{
}

/// Only a chargeback locks. If an account is locked after an event and was
/// not before, the event was a valid chargeback of that client.
pub proof fn lemma_only_chargeback_locks(
    state: StateView,
    record: TransactionRecord,
    client_id: ClientId,
)
    requires
        !account_or_empty(state.accounts, client_id).locked,
        account_or_empty(handled(state, record).0.accounts, client_id).locked,
    ensures
        record.transaction_type == TransactionType::Chargeback,
        record.client_id == client_id,
        handled(state, record).1 is Accepted,
{
}

/// Settled is the end. Whatever the event, a transaction that was settled
/// stays settled, and a dispute over it is refused.
pub proof fn lemma_settled_is_terminal(
    state: StateView,
    record: TransactionRecord,
    client_id: ClientId,
    tx_id: TransactionId,
)
    requires
        state.disputes.settled.contains((client_id, tx_id)),
    ensures
        handled(state, record).0.disputes.settled.contains((client_id, tx_id)),
        !(handled_dispute(state, Dispute { client_id, tx_id }).1 is Accepted),
{
}

/// No step of a dispute is skipped. A transaction comes under dispute only
/// by a valid dispute over it, and it is settled only by a valid resolve
/// or chargeback over it, which finds it under dispute.
pub proof fn lemma_dispute_steps_in_order(
    state: StateView,
    record: TransactionRecord,
    client_id: ClientId,
    tx_id: TransactionId,
)
    ensures
        ({
            let after = handled(state, record).0;
            let names_it = record.client_id == client_id && record.tx_id == tx_id
                && handled(state, record).1 is Accepted;
            &&& !state.disputes.active.contains((client_id, tx_id)) && after.disputes.active.contains(
                (client_id, tx_id),
            ) ==> names_it && record.transaction_type == TransactionType::Dispute
            &&& !state.disputes.settled.contains((client_id, tx_id))
                && after.disputes.settled.contains((client_id, tx_id)) ==> {
                &&& names_it
                &&& record.transaction_type == TransactionType::Resolve || record.transaction_type
                    == TransactionType::Chargeback
                &&& state.disputes.active.contains((client_id, tx_id))
                &&& !after.disputes.active.contains((client_id, tx_id))
            }
        }),
{
}

/// A refusal moves no funds. An event that is not applied leaves the
/// accounts and the disputes as they were, and the log keeps all that it
/// held. Only a refused deposit or withdrawal with a new id leaves a
/// trace: it is logged as refused, so that its id counts as used.
pub proof fn lemma_refusal_moves_nothing(state: StateView, record: TransactionRecord)
    requires
        !(handled(state, record).1 is Accepted),
    ensures
        handled(state, record).0.accounts == state.accounts,
        handled(state, record).0.disputes == state.disputes,
        !carries_own_id(record) || state.transactions.tx_ids.contains(record.tx_id) ==> handled(
            state,
            record,
        ).0 == state,
        forall|key: (ClientId, TransactionId)| #[trigger]
            state.transactions.by_client.contains_key(key) ==> handled(
                state,
                record,
            ).0.transactions.by_client.contains_key(key) && handled(
                state,
                record,
            ).0.transactions.by_client[key] == state.transactions.by_client[key],
{
    if carries_own_id(record) && state.transactions.tx_ids.contains(record.tx_id) {
        lemma_known_id_rejected(state, record);
    }
}

/// The funds decide a withdrawal. From an account that is not locked, a
/// withdrawal with a new id and a positive amount is applied if and only
/// if the amount is at most the available funds; it may take all of them.
/// Otherwise it is refused for insufficient funds, with the amount asked
/// for and the funds that were available, and no funds move.
pub proof fn lemma_withdrawal_boundary(state: StateView, withdrawal: Withdrawal)
    requires
        withdrawal.amount > 0,
        !state.transactions.tx_ids.contains(withdrawal.tx_id),
        !account_or_empty(state.accounts, withdrawal.client_id).locked,
    ensures
        ({
            let available = account_or_empty(state.accounts, withdrawal.client_id).available;
            let after = handled_withdrawal(state, withdrawal);
            &&& after.1 is Accepted <==> withdrawal.amount <= available
            &&& withdrawal.amount <= available ==> after.0.accounts[withdrawal.client_id].available
                == available - withdrawal.amount
            &&& withdrawal.amount > available ==> after.1 == Outcome::<()>::Rejected(
                TransactionError::InsufficientFunds {
                    client: withdrawal.client_id,
                    tx: withdrawal.tx_id,
                    requested: withdrawal.amount,
                    available: available as Balance,
                },
            ) && after.0.accounts == state.accounts
        }),
{
}

/// Withdrawals never overdraw. Whatever the state, a withdrawal that is
/// applied leaves available funds that are not negative.
pub proof fn lemma_withdrawal_never_overdraws(state: StateView, withdrawal: Withdrawal)
    requires
        handled_withdrawal(state, withdrawal).1 is Accepted,
    ensures
        handled_withdrawal(state, withdrawal).0.accounts[withdrawal.client_id].available >= 0,
{
}

/// Only deposits can be disputed. A dispute over a transaction that the
/// log holds as a withdrawal, applied or refused, is refused as invalid
/// with the kind that it found, and changes nothing.
pub proof fn lemma_only_deposits_disputable(
    state: StateView,
    client_id: ClientId,
    tx_id: TransactionId,
)
    requires
        state.transactions.by_client.contains_key((client_id, tx_id)),
        state.transactions.by_client[(client_id, tx_id)] is Withdrawal,
    ensures
        handled_dispute(state, Dispute { client_id, tx_id }).1 == Outcome::<()>::Rejected(
            TransactionError::InvalidDispute { tx: tx_id, tx_type: TransactionType::Withdrawal },
        ),
        handled_dispute(state, Dispute { client_id, tx_id }).0 == state,
{
}

/// Whether the kind of the event and its amount go together: a deposit
/// and a withdrawal carry an amount, the other kinds carry none.
pub open spec fn proper(record: TransactionRecord) -> bool {
    (record.amount is Some) == (record.transaction_type == TransactionType::Deposit
        || record.transaction_type == TransactionType::Withdrawal)
}

/// The kind and the amount must go together. An event that is not proper
/// is refused as such and changes nothing; a proper one is never refused
/// as improper.
pub proof fn lemma_improper_changes_nothing(state: StateView, record: TransactionRecord)
    ensures
        proper(record) ==> handled(state, record).1 != Outcome::<()>::Rejected(
            TransactionError::ImproperTransaction(record),
        ),
        !proper(record) ==> handled(state, record).1 == Outcome::<()>::Rejected(
            TransactionError::ImproperTransaction(record),
        ) && handled(state, record).0 == state,
{
}

/// A ledger that only handled events have changed never contradicts
/// itself. Whatever the event, a consistent ledger stays consistent, no
/// answer reports a contradiction, and no event is refused because its
/// client is not the client of the transaction it refers to: what is
/// found under a client was logged for that client.
pub proof fn lemma_handled_keeps_consistent(state: StateView, record: TransactionRecord)
    requires
        state.consistent(),
    ensures
        handled(state, record).0.consistent(),
        !(handled(state, record).1 is Inconsistent),
        !(handled(state, record).1 matches Outcome::Rejected(
            TransactionError::ClientMismatch { .. },
        )),
{
    let after = handled(state, record).0;
    assert forall|key: (ClientId, TransactionId)| #[trigger]
        after.transactions.by_client.contains_key(key) implies {
        &&& after.transactions.tx_ids.contains(key.1)
        &&& match after.transactions.by_client[key] {
            TransactionContainer::Deposit(Ok(deposit)) => {
                &&& deposit.client_id == key.0
                &&& deposit.tx_id == key.1
                &&& after.accounts.contains_key(key.0)
            },
            TransactionContainer::Withdrawal(Ok(withdrawal)) => {
                &&& withdrawal.client_id == key.0
                &&& withdrawal.tx_id == key.1
            },
            _ => true,
        }
    } by {
        if state.transactions.by_client.contains_key(key) {
            assert(after.transactions.by_client[key] == state.transactions.by_client[key]);
        }
    }
    assert forall|key: (ClientId, TransactionId)| #[trigger]
        after.disputes.active.contains(key) implies {
        &&& after.transactions.by_client.contains_key(key)
        &&& after.transactions.by_client[key] matches TransactionContainer::Deposit(Ok(_))
    } by {
        if state.disputes.active.contains(key) {
            assert(state.transactions.by_client.contains_key(key));
            assert(after.transactions.by_client[key] == state.transactions.by_client[key]);
        }
    }
    assert forall|key: (ClientId, TransactionId)| #[trigger]
        after.disputes.settled.contains(key) implies {
        &&& after.transactions.by_client.contains_key(key)
        &&& after.transactions.by_client[key] matches TransactionContainer::Deposit(Ok(_))
    } by {
        if state.disputes.settled.contains(key) || state.disputes.active.contains(key) {
            assert(state.transactions.by_client.contains_key(key));
            assert(after.transactions.by_client[key] == state.transactions.by_client[key]);
        }
    }
}

/// A deposit can be disputed, and the dispute can be resolved or charged
/// back. In a consistent ledger, a valid deposit is followed validly by a
/// dispute over it, and the dispute by a resolve or by a chargeback. After
/// the deposit and the dispute, the amount is held and the available funds
/// are what they were before the deposit. The resolve then leaves the
/// account as the deposit alone had left it. The chargeback instead leaves
/// the balances as they were before the deposit, and the account locked.
pub proof fn lemma_deposit_can_be_disputed(state: StateView, deposit: Deposit)
    requires
        state.consistent(),
        handled_deposit(state, deposit).1 is Accepted,
    ensures
        ({
            let client_id = deposit.client_id;
            let tx_id = deposit.tx_id;
            let before = account_or_empty(state.accounts, client_id);
            let deposited = handled_deposit(state, deposit).0;
            let disputed = handled_dispute(deposited, Dispute { client_id, tx_id });
            let resolved = handled_resolve(disputed.0, Resolve { client_id, tx_id });
            let charged = handled_chargeback(disputed.0, Chargeback { client_id, tx_id });
            &&& deposited.accounts[client_id] == before.credited(deposit.amount as int)
            &&& disputed.1 is Accepted
            &&& disputed.0.accounts[client_id].available == before.available
            &&& disputed.0.accounts[client_id].held == before.held + deposit.amount
            &&& resolved.1 is Accepted
            &&& resolved.0.accounts == deposited.accounts
            &&& charged.1 is Accepted
            &&& charged.0.accounts[client_id] == before.frozen()
        }),
{
    let client_id = deposit.client_id;
    let tx_id = deposit.tx_id;
    let deposited = handled_deposit(state, deposit).0;
    assert(!state.transactions.by_client.contains_key((client_id, tx_id)));
    assert(!state.disputes.active.contains((client_id, tx_id)));
    assert(!state.disputes.settled.contains((client_id, tx_id)));
    let disputed = handled_dispute(deposited, Dispute { client_id, tx_id }).0;
    let resolved = handled_resolve(disputed, Resolve { client_id, tx_id }).0;
    assert(resolved.accounts =~= deposited.accounts);
}

/// What an event leaves alone. Whatever the event, the account of every
/// other client, what is logged under every other client, and the
/// disputes of every other client stay as they were, and no id but the
/// event's own becomes known.
pub proof fn lemma_event_touches_its_client_only(
    state: StateView,
    record: TransactionRecord,
    client_id: ClientId,
    tx_id: TransactionId,
)
    requires
        record.client_id != client_id,
    ensures
        ({
            let after = handled(state, record).0;
            &&& after.accounts.contains_key(client_id) == state.accounts.contains_key(client_id)
            &&& after.accounts.contains_key(client_id) ==> after.accounts[client_id]
                == state.accounts[client_id]
            &&& after.transactions.by_client.contains_key((client_id, tx_id))
                == state.transactions.by_client.contains_key((client_id, tx_id))
            &&& after.transactions.by_client.contains_key((client_id, tx_id))
                ==> after.transactions.by_client[(client_id, tx_id)]
                == state.transactions.by_client[(client_id, tx_id)]
            &&& after.disputes.active.contains((client_id, tx_id)) == state.disputes.active.contains(
                (client_id, tx_id),
            )
            &&& after.disputes.settled.contains((client_id, tx_id))
                == state.disputes.settled.contains((client_id, tx_id))
            &&& tx_id != record.tx_id ==> after.transactions.tx_ids.contains(tx_id)
                == state.transactions.tx_ids.contains(tx_id)
        }),
{
}

/// The answer to an event depends on nothing but the event's own client
/// and id. An event that names another client and another id, handled
/// first, does not change the answer.
pub proof fn lemma_answer_ignores_other_clients(
    state: StateView,
    earlier: TransactionRecord,
    record: TransactionRecord,
)
    requires
        earlier.client_id != record.client_id,
        earlier.tx_id != record.tx_id,
    ensures
        handled(handled(state, earlier).0, record).1 == handled(state, record).1,
{
    lemma_event_touches_its_client_only(state, earlier, record.client_id, record.tx_id);
}

/// Clients do not get in each other's way. Two events that name different
/// clients and different ids can be handled in either order: the ledger
/// that they leave is the same, and so is the answer to each of them. So
/// it is enough that the events of each client keep their order.
pub proof fn lemma_clients_are_independent(
    state: StateView,
    first: TransactionRecord,
    second: TransactionRecord,
)
    requires
        first.client_id != second.client_id,
        first.tx_id != second.tx_id,
    ensures
        handled(handled(state, first).0, second).0 == handled(handled(state, second).0, first).0,
        handled(handled(state, first).0, second).1 == handled(state, second).1,
        handled(handled(state, second).0, first).1 == handled(state, first).1,
{
    let one = handled(handled(state, first).0, second).0;
    let other = handled(handled(state, second).0, first).0;
    lemma_answer_ignores_other_clients(state, first, second);
    lemma_answer_ignores_other_clients(state, second, first);
    assert(one.accounts =~= other.accounts);
    assert(one.transactions.tx_ids =~= other.transactions.tx_ids);
    assert(one.transactions.by_client =~= other.transactions.by_client);
    assert(one.disputes.active =~= other.disputes.active);
    assert(one.disputes.settled =~= other.disputes.settled);
}

} // verus!
