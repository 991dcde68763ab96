use vstd::prelude::*;

use crate::account::{AccountAccess, BaseAccountFeatures, UnlockedAccountFeatures};
use crate::currency::{amount_limit, lemma_amount_within_limit};
use crate::state::{account_or_empty, State, StateView};
use crate::types::{Chargeback, Deposit, Dispute, Resolve, Withdrawal};
use crate::types::{ClientId, TransactionContainer, TransactionId};
use crate::validate::{deposit_outcome, dispute_outcome, post_dispute_outcome, withdrawal_outcome};

verus! {

/// The ledger after a valid deposit: the amount is added to the available
/// funds of the client, whose account is made if there was none, and the
/// deposit is logged as applied.
pub open spec fn after_deposit(state: StateView, deposit: Deposit) -> StateView {
    StateView {
        accounts: state.accounts.insert(
            deposit.client_id,
            account_or_empty(state.accounts, deposit.client_id).credited(deposit.amount as int),
        ),
        transactions: state.transactions.logged(
            deposit.client_id,
            deposit.tx_id,
            TransactionContainer::Deposit(Ok(deposit)),
        ),
        disputes: state.disputes,
    }
}

/// The ledger after a valid withdrawal: the amount is taken from the
/// available funds of the client, and the withdrawal is logged as applied.
pub open spec fn after_withdrawal(state: StateView, withdrawal: Withdrawal) -> StateView {
    StateView {
        accounts: state.accounts.insert(
            withdrawal.client_id,
            account_or_empty(state.accounts, withdrawal.client_id).debited(
                withdrawal.amount as int,
            ),
        ),
        transactions: state.transactions.logged(
            withdrawal.client_id,
            withdrawal.tx_id,
            TransactionContainer::Withdrawal(Ok(withdrawal)),
        ),
        disputes: state.disputes,
    }
}

/// The ledger after a valid dispute of `client_id` over the deposit
/// `disputed`, logged as `tx_id`: the amount moves from the available to
/// the held funds, and the transaction is under dispute.
pub open spec fn after_dispute(
    state: StateView,
    client_id: ClientId,
    tx_id: TransactionId,
    disputed: Deposit,
) -> StateView {
    StateView {
        accounts: state.accounts.insert(
            client_id,
            account_or_empty(state.accounts, client_id).disputed(disputed.amount as int),
        ),
        transactions: state.transactions,
        disputes: state.disputes.with_dispute(client_id, tx_id),
    }
}

/// The ledger after a valid resolve: the amount moves back from the held
/// to the available funds, and the dispute is settled. This undoes what
/// the dispute did to the balances.
pub open spec fn after_resolve(
    state: StateView,
    client_id: ClientId,
    tx_id: TransactionId,
    disputed: Deposit,
) -> StateView {
    StateView {
        accounts: state.accounts.insert(
            client_id,
            account_or_empty(state.accounts, client_id).resolved(disputed.amount as int),
        ),
        transactions: state.transactions,
        disputes: state.disputes.with_settlement(client_id, tx_id),
    }
}

/// The ledger after a valid chargeback: the amount leaves the held funds,
/// the dispute is settled, and the account is locked, whatever it was
/// before.
pub open spec fn after_chargeback(
    state: StateView,
    client_id: ClientId,
    tx_id: TransactionId,
    disputed: Deposit,
) -> StateView {
    StateView {
        accounts: state.accounts.insert(
            client_id,
            account_or_empty(state.accounts, client_id).charged_back(
                disputed.amount as int,
            ).frozen(),
        ),
        transactions: state.transactions,
        disputes: state.disputes.with_settlement(client_id, tx_id),
    }
}

/// A valid deposit leaves a well-formed ledger well formed.
pub proof fn lemma_deposit_keeps_well_formed(state: StateView, deposit: Deposit)
    requires
        state.well_formed(),
        deposit_outcome(deposit, state.accounts, state.transactions) is Accepted,
    ensures
        after_deposit(state, deposit).well_formed(),
        after_deposit(state, deposit).allowance() == state.allowance() + amount_limit(),
{
    lemma_amount_within_limit(deposit.amount);
    let after = after_deposit(state, deposit);
    assert(after.transactions.tx_ids.len() == state.transactions.tx_ids.len() + 1);
    assert forall|client_id: ClientId| #[trigger]
        after.accounts.contains_key(client_id) implies after.within_allowance(
        after.accounts[client_id],
    ) by {
        if client_id != deposit.client_id {
            assert(state.accounts.contains_key(client_id));
        } else if state.accounts.contains_key(client_id) {
        }
    }
}

/// A valid withdrawal leaves a well-formed ledger well formed.
pub proof fn lemma_withdrawal_keeps_well_formed(state: StateView, withdrawal: Withdrawal)
    requires
        state.well_formed(),
        withdrawal_outcome(withdrawal, state.accounts, state.transactions) is Accepted,
    ensures
        after_withdrawal(state, withdrawal).well_formed(),
        after_withdrawal(state, withdrawal).allowance() == state.allowance() + amount_limit(),
{
    lemma_amount_within_limit(withdrawal.amount);
    let after = after_withdrawal(state, withdrawal);
    assert(after.transactions.tx_ids.len() == state.transactions.tx_ids.len() + 1);
    assert forall|client_id: ClientId| #[trigger]
        after.accounts.contains_key(client_id) implies after.within_allowance(
        after.accounts[client_id],
    ) by {
        if client_id != withdrawal.client_id {
            assert(state.accounts.contains_key(client_id));
        } else if state.accounts.contains_key(client_id) {
        }
    }
}

/// A valid dispute leaves a well-formed ledger well formed.
pub proof fn lemma_dispute_keeps_well_formed(state: StateView, dispute: Dispute)
    requires
        state.well_formed(),
        dispute_outcome(dispute, state.accounts, state.transactions, state.disputes) is Accepted,
    ensures
        ({
            let disputed = dispute_outcome(
                dispute,
                state.accounts,
                state.transactions,
                state.disputes,
            )->Accepted_0;
            let after = after_dispute(state, dispute.client_id, dispute.tx_id, disputed);
            &&& after.well_formed()
            &&& after.allowance() == state.allowance() + amount_limit()
        }),
{
    let disputed = dispute_outcome(
        dispute,
        state.accounts,
        state.transactions,
        state.disputes,
    )->Accepted_0;
    lemma_amount_within_limit(disputed.amount);
    let after = after_dispute(state, dispute.client_id, dispute.tx_id, disputed);
    assert(after.disputes.active.len() == state.disputes.active.len() + 1);
    assert forall|client_id: ClientId| #[trigger]
        after.accounts.contains_key(client_id) implies after.within_allowance(
        after.accounts[client_id],
    ) by {
        if client_id != dispute.client_id {
            assert(state.accounts.contains_key(client_id));
        } else {
            assert(state.accounts.contains_key(client_id));
        }
    }
}

/// A valid resolve or chargeback leaves a well-formed ledger well formed,
/// whichever of the two it is.
pub proof fn lemma_settlement_keeps_well_formed(
    state: StateView,
    client_id: ClientId,
    tx_id: TransactionId,
)
    requires
        state.well_formed(),
        post_dispute_outcome(
            client_id,
            tx_id,
            state.accounts,
            state.transactions,
            state.disputes,
        ) is Accepted,
    ensures
        ({
            let disputed = post_dispute_outcome(
                client_id,
                tx_id,
                state.accounts,
                state.transactions,
                state.disputes,
            )->Accepted_0;
            &&& after_resolve(state, client_id, tx_id, disputed).well_formed()
            &&& after_chargeback(state, client_id, tx_id, disputed).well_formed()
            &&& after_resolve(state, client_id, tx_id, disputed).allowance() == state.allowance()
                + amount_limit()
            &&& after_chargeback(state, client_id, tx_id, disputed).allowance()
                == state.allowance() + amount_limit()
        }),
{
    let disputed = post_dispute_outcome(
        client_id,
        tx_id,
        state.accounts,
        state.transactions,
        state.disputes,
    )->Accepted_0;
    lemma_amount_within_limit(disputed.amount);
    let resolved = after_resolve(state, client_id, tx_id, disputed);
    let charged = after_chargeback(state, client_id, tx_id, disputed);
    assert(state.disputes.active.contains((client_id, tx_id)));
    assert(!state.disputes.settled.contains((client_id, tx_id)));
    assert(resolved.disputes.active.len() == state.disputes.active.len() - 1);
    assert(resolved.disputes.settled.len() == state.disputes.settled.len() + 1);
    assert(charged.disputes == resolved.disputes);
    assert(state.accounts.contains_key(client_id));
    assert forall|other: ClientId| #[trigger]
        resolved.accounts.contains_key(other) implies resolved.within_allowance(
        resolved.accounts[other],
    ) by {
        if other != client_id {
            assert(state.accounts.contains_key(other));
        }
    }
    assert forall|other: ClientId| #[trigger]
        charged.accounts.contains_key(other) implies charged.within_allowance(
        charged.accounts[other],
    ) by {
        if other != client_id {
            assert(state.accounts.contains_key(other));
        }
    }
}

/// Applies a deposit that was found valid.
pub fn record_deposit(deposit: Deposit, state: &mut State)
    requires
        old(state)@.well_formed(),
        deposit_outcome(deposit, old(state)@.accounts, old(state)@.transactions) is Accepted,
    ensures
        final(state)@ == after_deposit(old(state)@, deposit),
        final(state)@.well_formed(),
{
    proof {
        old(state)@.lemma_allowance_within_limit();
        lemma_amount_within_limit(deposit.amount);
        lemma_deposit_keeps_well_formed(old(state)@, deposit);
    }
    // Update the account, which is made here if the client has none.
    match state.accounts.get_mut_or_default(deposit.client_id) {
        AccountAccess::Unlocked(mut account) => {
            account.modify_balances_for_deposit(&deposit);
        },
        AccountAccess::Locked(_) => {},
    }
    // Log transaction
    state.transactions.insert(
        deposit.client_id,
        deposit.tx_id,
        TransactionContainer::Deposit(Ok(deposit)),
    );
}

/// Applies a withdrawal that was found valid.
pub fn record_withdrawal(withdrawal: Withdrawal, state: &mut State)
    requires
        old(state)@.well_formed(),
        withdrawal_outcome(withdrawal, old(state)@.accounts, old(state)@.transactions) is Accepted,
    ensures
        final(state)@ == after_withdrawal(old(state)@, withdrawal),
        final(state)@.well_formed(),
{
    proof {
        old(state)@.lemma_allowance_within_limit();
        lemma_amount_within_limit(withdrawal.amount);
        lemma_withdrawal_keeps_well_formed(old(state)@, withdrawal);
    }
    // A valid withdrawal is covered by the funds of the account, so the
    // account is there.
    match state.accounts.get_mut(withdrawal.client_id) {
        Some(AccountAccess::Unlocked(mut account)) => {
            account.modify_balances_for_withdrawal(&withdrawal);
        },
        _ => {},
    }
    // Log transaction
    state.transactions.insert(
        withdrawal.client_id,
        withdrawal.tx_id,
        TransactionContainer::Withdrawal(Ok(withdrawal)),
    );
}

/// Applies a dispute that was found valid.
pub fn record_dispute(dispute: Dispute, state: &mut State)
    requires
        old(state)@.well_formed(),
        dispute_outcome(
            dispute,
            old(state)@.accounts,
            old(state)@.transactions,
            old(state)@.disputes,
        ) is Accepted,
    ensures
        final(state)@ == after_dispute(
            old(state)@,
            dispute.client_id,
            dispute.tx_id,
            dispute_outcome(
                dispute,
                old(state)@.accounts,
                old(state)@.transactions,
                old(state)@.disputes,
            )->Accepted_0,
        ),
        final(state)@.well_formed(),
{
    proof {
        old(state)@.lemma_allowance_within_limit();
        lemma_dispute_keeps_well_formed(old(state)@, dispute);
    }
    if let Some(TransactionContainer::Deposit(Ok(disputed_deposit))) = state.transactions.get(
        dispute.client_id,
        dispute.tx_id,
    ) {
        proof {
            lemma_amount_within_limit(disputed_deposit.amount);
        }
        // Get associated account
        if let Some(access) = state.accounts.get_mut(dispute.client_id) {
            let mut account = access.inner();
            account.modify_balances_for_dispute(disputed_deposit);
        }
        // Mark the transaction as actively disputed
        let _ = state.disputes.dispute_tx(dispute.client_id, dispute.tx_id);
    }
}

/// Applies a resolve that was found valid.
pub fn record_resolve(resolve: Resolve, state: &mut State)
    requires
        old(state)@.well_formed(),
        post_dispute_outcome(
            resolve.client_id,
            resolve.tx_id,
            old(state)@.accounts,
            old(state)@.transactions,
            old(state)@.disputes,
        ) is Accepted,
    ensures
        final(state)@ == after_resolve(
            old(state)@,
            resolve.client_id,
            resolve.tx_id,
            post_dispute_outcome(
                resolve.client_id,
                resolve.tx_id,
                old(state)@.accounts,
                old(state)@.transactions,
                old(state)@.disputes,
            )->Accepted_0,
        ),
        final(state)@.well_formed(),
{
    proof {
        old(state)@.lemma_allowance_within_limit();
        lemma_settlement_keeps_well_formed(old(state)@, resolve.client_id, resolve.tx_id);
    }
    if let Some(TransactionContainer::Deposit(Ok(disputed_deposit))) = state.transactions.get(
        resolve.client_id,
        resolve.tx_id,
    ) {
        proof {
            lemma_amount_within_limit(disputed_deposit.amount);
        }
        // Get associated account
        if let Some(access) = state.accounts.get_mut(resolve.client_id) {
            let mut account = access.inner();
            account.modify_balances_for_resolve(disputed_deposit);
        }
        // Mark the transaction as no longer disputed
        let _ = state.disputes.settle_dispute(resolve.client_id, resolve.tx_id);
    }
}

/// Applies a chargeback that was found valid.
pub fn record_chargeback(chargeback: Chargeback, state: &mut State)
    requires
        old(state)@.well_formed(),
        post_dispute_outcome(
            chargeback.client_id,
            chargeback.tx_id,
            old(state)@.accounts,
            old(state)@.transactions,
            old(state)@.disputes,
        ) is Accepted,
    ensures
        final(state)@ == after_chargeback(
            old(state)@,
            chargeback.client_id,
            chargeback.tx_id,
            post_dispute_outcome(
                chargeback.client_id,
                chargeback.tx_id,
                old(state)@.accounts,
                old(state)@.transactions,
                old(state)@.disputes,
            )->Accepted_0,
        ),
        final(state)@.well_formed(),
{
    proof {
        old(state)@.lemma_allowance_within_limit();
        lemma_settlement_keeps_well_formed(old(state)@, chargeback.client_id, chargeback.tx_id);
    }
    if let Some(TransactionContainer::Deposit(Ok(disputed_deposit))) = state.transactions.get(
        chargeback.client_id,
        chargeback.tx_id,
    ) {
        proof {
            lemma_amount_within_limit(disputed_deposit.amount);
        }
        // Get associated account
        match state.accounts.get_mut(chargeback.client_id) {
            Some(AccountAccess::Unlocked(mut account)) => {
                account.modify_balances_for_chargeback(disputed_deposit);
                // Lock the account
                account.lock();
            },
            Some(AccountAccess::Locked(mut account)) => {
                account.modify_balances_for_chargeback(disputed_deposit);
            },
            None => {},
        }
        // Mark the transaction as no longer disputed
        let _ = state.disputes.settle_dispute(chargeback.client_id, chargeback.tx_id);
    }
}

} // verus!
