use ::rand::Rng;
use std::collections::HashSet;
use vstd::prelude::*;

use crate::currency::amount_up_to;
use crate::handlers::{handle_transaction, handled};
use crate::handlers::lemma_handled_keeps_well_formed;
use crate::laws::lemma_handled_keeps_consistent;
use crate::state::{account_or_empty, gathers, lemma_gathers_step, State, StateView};
use crate::types::{Amount, Balance, ClientId, TransactionId};
use crate::types::{Chargeback, Deposit, Dispute, Resolve, Withdrawal};
use crate::types::{TransactionContainer, TransactionRecord, TransactionType};

verus! {

broadcast use vstd::std_specs::hash::group_hash_axioms;

/// The smallest amount that is generated: one ten-thousandth.
pub const MIN_AMOUNT: Amount = 1;

/// Out of a hundred generated events, how many are deposits.
pub const DEPOSIT_PCNT: u8 = 50;

/// Out of a hundred generated events, how many are withdrawals.
pub const WITHDRAWAL_PCNT: u8 = 40;

/// Out of a hundred generated events, how many are disputes.
pub const DISPUTE_PCNT: u8 = 5;

/// Out of a hundred generated events, how many are resolves. What is left
/// of the hundred is the share of the chargebacks.
pub const RESOLVE_PCNT: u8 = 4;

/// The numbers below this one stand for a deposit.
pub const CUM_DEPOSIT: u8 = DEPOSIT_PCNT;

/// The numbers below this one, and not below the last, stand for a
/// withdrawal.
pub const CUM_WITHDRAWAL: u8 = CUM_DEPOSIT + WITHDRAWAL_PCNT;

/// The numbers below this one, and not below the last, stand for a
/// dispute.
pub const CUM_DISPUTE: u8 = CUM_WITHDRAWAL + DISPUTE_PCNT;

/// The numbers below this one, and not below the last, stand for a
/// resolve; the others stand for a chargeback.
pub const CUM_RESOLVE: u8 = CUM_DISPUTE + RESOLVE_PCNT;

/// Calls `rand::thread_rng` and, on the generator that it gives,
/// `rand::Rng::gen_range` with the half-open range from `low` to `high`.
/// The number that comes back lies in that range: at least `low`, and less
/// than `high`. Which number it is, nothing says. The call panics on an
/// empty range, which the precondition excludes. Apart from that it
/// panics only where the system fails to give randomness: to start the
/// thread's generator with, or to seed it anew after it has given many
/// numbers.
#[verifier::external_body]
fn random_in_range(low: i64, high: i64) -> (value: i64)
    requires
        low < high,
    ensures
        low <= value < high,
{
    ::rand::thread_rng().gen_range(low..high)
}

/// The kind of event that a number drawn below a hundred stands for, so
/// that the kinds come in their shares.
pub open spec fn kind_for(percent: u8) -> TransactionType {
    if percent < CUM_DEPOSIT {
        TransactionType::Deposit
    } else if percent < CUM_WITHDRAWAL {
        TransactionType::Withdrawal
    } else if percent < CUM_DISPUTE {
        TransactionType::Dispute
    } else if percent < CUM_RESOLVE {
        TransactionType::Resolve
    } else {
        TransactionType::Chargeback
    }
}

/// The kind of event that a number drawn below a hundred stands for.
pub fn transaction_type_for(percent: u8) -> (kind: TransactionType)
    ensures
        kind == kind_for(percent),
{
    if percent < CUM_DEPOSIT {
        TransactionType::Deposit
    } else if percent < CUM_WITHDRAWAL {
        TransactionType::Withdrawal
    } else if percent < CUM_DISPUTE {
        TransactionType::Dispute
    } else if percent < CUM_RESOLVE {
        TransactionType::Resolve
    } else {
        TransactionType::Chargeback
    }
}

/// Some id of the set, if it has any.
fn any_id(ids: &HashSet<TransactionId>) -> (found: Option<TransactionId>)
    ensures
        match found {
            Some(tx_id) => ids@.contains(tx_id),
            None => ids@ == Set::<TransactionId>::empty(),
        },
{
    for tx_id in iter: ids.iter()
        invariant
            iter.seq().unref().to_set() == ids@,
            iter.index() == iter.seq().len() ==> ids@ == Set::<TransactionId>::empty(),
    {
        proof {
            assert(iter.seq().unref()[iter.index()] == *tx_id);
            assert(iter.seq().unref().to_set().contains(*tx_id));
        }
        return Some(*tx_id);
    }
    None
}

/// The ids of `all` that are neither in `disputed` nor in `settled`.
fn undisputed_ids(
    all: &HashSet<TransactionId>,
    disputed: &HashSet<TransactionId>,
    settled: &HashSet<TransactionId>,
) -> (rest: HashSet<TransactionId>)
    ensures
        rest@ == all@.difference(disputed@).difference(settled@),
{
    let mut rest: HashSet<TransactionId> = HashSet::new();
    let ghost wanted = Set::new(
        |tx_id: TransactionId| !disputed@.contains(tx_id) && !settled@.contains(tx_id),
    );
    for tx_id in iter: all.iter()
        invariant
            iter.seq().unref().to_set() == all@,
            wanted == Set::new(
                |tx_id: TransactionId| !disputed@.contains(tx_id) && !settled@.contains(tx_id),
            ),
            gathers(rest@, iter.seq(), iter.index(), wanted),
            iter.index() == iter.seq().len() ==> rest@ == all@.difference(disputed@).difference(
                settled@,
            ),
    {
        let ghost before = rest@;
        if !disputed.contains(tx_id) && !settled.contains(tx_id) {
            rest.insert(*tx_id);
        }
        proof {
            assert(gathers(rest@, iter.seq(), iter.index() + 1, wanted) && (iter.index() + 1
                == iter.seq().len() ==> rest@ == all@.difference(disputed@).difference(
                settled@,
            ))) by {
                lemma_gathers_step(before, rest@, iter.seq(), iter.index(), wanted, all@);
                assert(all@.intersect(wanted) =~= all@.difference(disputed@).difference(
                    settled@,
                ));
            }
        }
    }
    rest
}

/// Whether the ledger would apply the event.
pub open spec fn accepted(state: StateView, record: TransactionRecord) -> bool {
    handled(state, record).1 is Accepted
}

/// The record of a deposit.
pub open spec fn deposit_record(
    client_id: ClientId,
    tx_id: TransactionId,
    amount: Amount,
) -> TransactionRecord {
    TransactionRecord {
        transaction_type: TransactionType::Deposit,
        client_id,
        tx_id,
        amount: Some(amount),
    }
}

/// The record of a withdrawal.
pub open spec fn withdrawal_record(
    client_id: ClientId,
    tx_id: TransactionId,
    amount: Amount,
) -> TransactionRecord {
    TransactionRecord {
        transaction_type: TransactionType::Withdrawal,
        client_id,
        tx_id,
        amount: Some(amount),
    }
}

/// The record of an event that refers to a deposit: a dispute, a resolve
/// or a chargeback.
pub open spec fn referring_record(
    transaction_type: TransactionType,
    client_id: ClientId,
    tx_id: TransactionId,
) -> TransactionRecord {
    TransactionRecord { transaction_type, client_id, tx_id, amount: None }
}

/// The deposit that is generated once the client and the amount are drawn:
/// a deposit of that amount for that client, under the id that comes next.
/// None is generated for a client whose account is locked, nor where no
/// amount lies between the smallest amount and the bound of the deposits.
pub open spec fn deposit_candidate(
    ledger: StateView,
    tx_id: TransactionId,
    max_deposit: Amount,
    client_id: ClientId,
    amount: Amount,
) -> Option<TransactionRecord> {
    if account_or_empty(ledger.accounts, client_id).locked || max_deposit <= MIN_AMOUNT {
        None
    } else {
        Some(deposit_record(client_id, tx_id, amount))
    }
}

/// The bound below which the amount of a withdrawal of the client is
/// drawn: the available funds of the account, as far as an amount can
/// reach them. There is none where the client has no account, where the
/// account is locked, and where the funds do not exceed the smallest
/// amount.
pub open spec fn withdrawal_bound(ledger: StateView, client_id: ClientId) -> Option<Amount> {
    if ledger.accounts.contains_key(client_id) {
        let account = ledger.accounts[client_id];
        let limit = if account.available > Amount::MAX {
            Amount::MAX
        } else {
            account.available as Amount
        };
        if !account.locked && account.available > MIN_AMOUNT && limit > MIN_AMOUNT {
            Some(limit)
        } else {
            None
        }
    } else {
        None
    }
}

/// The withdrawal that is generated once the client and the amount are
/// drawn: a withdrawal of that amount for that client, under the id that
/// comes next, where the client has a bound to draw the amount below, and
/// none where it has not.
pub open spec fn withdrawal_candidate(
    ledger: StateView,
    tx_id: TransactionId,
    client_id: ClientId,
    amount: Amount,
) -> Option<TransactionRecord> {
    if withdrawal_bound(ledger, client_id) is Some {
        Some(withdrawal_record(client_id, tx_id, amount))
    } else {
        None
    }
}

/// Whether the log holds, under the client and the id, a deposit that was
/// applied: only such a transaction can be disputed.
pub open spec fn disputable(ledger: StateView, client_id: ClientId, tx_id: TransactionId) -> bool {
    &&& ledger.transactions.by_client.contains_key((client_id, tx_id))
    &&& ledger.transactions.by_client[(client_id, tx_id)] matches TransactionContainer::Deposit(
        Ok(_),
    )
}

/// The transactions of the client that were logged and never disputed.
pub open spec fn undisputed_of(ledger: StateView, client_id: ClientId) -> Set<TransactionId> {
    Set::new(
        |tx_id: TransactionId|
            {
                &&& ledger.transactions.by_client.contains_key((client_id, tx_id))
                &&& !ledger.disputes.active.contains((client_id, tx_id))
                &&& !ledger.disputes.settled.contains((client_id, tx_id))
            },
    )
}

/// Whether `picked` can be what is picked from the ids: one of them, and
/// nothing only where there is none. Which of them it is, is left open.
pub open spec fn picked_from(ids: Set<TransactionId>, picked: Option<TransactionId>) -> bool {
    match picked {
        Some(tx_id) => ids.contains(tx_id),
        None => forall|tx_id: TransactionId| !ids.contains(tx_id),
    }
}

/// The dispute that is generated once the client is drawn and a
/// transaction is picked for it: a dispute of the client over that
/// transaction, where the client has an account and the transaction can be
/// disputed, and none otherwise.
pub open spec fn dispute_candidate(
    ledger: StateView,
    client_id: ClientId,
    picked: Option<TransactionId>,
) -> Option<TransactionRecord> {
    match picked {
        Some(tx_id) => if ledger.accounts.contains_key(client_id) && disputable(
            ledger,
            client_id,
            tx_id,
        ) {
            Some(referring_record(TransactionType::Dispute, client_id, tx_id))
        } else {
            None
        },
        None => None,
    }
}

/// The resolve or the chargeback that is generated once the client is
/// drawn and a disputed transaction is picked for it: an event of that
/// kind of the client over that transaction, where the client has an
/// account, and none where it has not or where nothing was picked.
pub open spec fn settlement_candidate(
    ledger: StateView,
    transaction_type: TransactionType,
    client_id: ClientId,
    picked: Option<TransactionId>,
) -> Option<TransactionRecord> {
    match picked {
        Some(tx_id) => if ledger.accounts.contains_key(client_id) {
            Some(referring_record(transaction_type, client_id, tx_id))
        } else {
            None
        },
        None => None,
    }
}

/// Whether `candidate` is what is generated as a deposit for some client
/// and some amount that can be drawn: a client from 1 to `max_client`, and
/// an amount from the smallest one to below `max_deposit`.
pub open spec fn may_generate_deposit(
    ledger: StateView,
    tx_id: TransactionId,
    max_client: ClientId,
    max_deposit: Amount,
    candidate: Option<TransactionRecord>,
) -> bool {
    exists|client_id: ClientId, amount: Amount|
        {
            &&& 1 <= client_id <= max_client
            &&& MIN_AMOUNT < max_deposit ==> MIN_AMOUNT <= amount < max_deposit
            &&& candidate == #[trigger] deposit_candidate(
                ledger,
                tx_id,
                max_deposit,
                client_id,
                amount,
            )
        }
}

/// Whether `candidate` is what is generated as a withdrawal for some
/// client and some amount that can be drawn: a client from 1 to
/// `max_client`, and an amount from the smallest one to below the bound of
/// that client.
pub open spec fn may_generate_withdrawal(
    ledger: StateView,
    tx_id: TransactionId,
    max_client: ClientId,
    candidate: Option<TransactionRecord>,
) -> bool {
    exists|client_id: ClientId, amount: Amount|
        {
            &&& 1 <= client_id <= max_client
            &&& withdrawal_bound(ledger, client_id) matches Some(limit) ==> MIN_AMOUNT <= amount
                < limit
            &&& candidate == #[trigger] withdrawal_candidate(ledger, tx_id, client_id, amount)
        }
}

/// Whether `candidate` is what is generated as a dispute for some client
/// that can be drawn, from 1 to `max_client`, and some transaction that
/// can be picked among those of the client that were never disputed.
pub open spec fn may_generate_dispute(
    ledger: StateView,
    max_client: ClientId,
    candidate: Option<TransactionRecord>,
) -> bool {
    exists|client_id: ClientId, picked: Option<TransactionId>|
        {
            &&& 1 <= client_id <= max_client
            &&& picked_from(undisputed_of(ledger, client_id), picked)
            &&& candidate == #[trigger] dispute_candidate(ledger, client_id, picked)
        }
}

/// Whether `candidate` is what is generated as a resolve or a chargeback
/// for some client that can be drawn, from 1 to `max_client`, and some
/// transaction that can be picked among those of the client that are under
/// dispute.
pub open spec fn may_generate_settlement(
    ledger: StateView,
    transaction_type: TransactionType,
    max_client: ClientId,
    candidate: Option<TransactionRecord>,
) -> bool {
    exists|client_id: ClientId, picked: Option<TransactionId>|
        {
            &&& 1 <= client_id <= max_client
            &&& picked_from(ledger.disputes.disputed_of(client_id), picked)
            &&& candidate == #[trigger] settlement_candidate(
                ledger,
                transaction_type,
                client_id,
                picked,
            )
        }
}

/// Whether `candidate` is what is generated for an event of the kind, for
/// some outcome of what is drawn and picked for that kind.
pub open spec fn may_generate(
    ledger: StateView,
    tx_id: TransactionId,
    max_client: ClientId,
    max_deposit: Amount,
    transaction_type: TransactionType,
    candidate: Option<TransactionRecord>,
) -> bool {
    match transaction_type {
        TransactionType::Deposit => may_generate_deposit(
            ledger,
            tx_id,
            max_client,
            max_deposit,
            candidate,
        ),
        TransactionType::Withdrawal => may_generate_withdrawal(
            ledger,
            tx_id,
            max_client,
            candidate,
        ),
        TransactionType::Dispute => may_generate_dispute(ledger, max_client, candidate),
        TransactionType::Resolve => may_generate_settlement(
            ledger,
            TransactionType::Resolve,
            max_client,
            candidate,
        ),
        TransactionType::Chargeback => may_generate_settlement(
            ledger,
            TransactionType::Chargeback,
            max_client,
            candidate,
        ),
    }
}

/// Whether `candidate` is what one attempt can generate: what is generated
/// for the kind that some number drawn below a hundred stands for, for
/// some outcome of what is drawn and picked for that kind.
pub open spec fn may_attempt(
    ledger: StateView,
    tx_id: TransactionId,
    max_client: ClientId,
    max_deposit: Amount,
    candidate: Option<TransactionRecord>,
) -> bool {
    exists|percent: u8|
        percent < 100 && may_generate(
            ledger,
            tx_id,
            max_client,
            max_deposit,
            #[trigger] kind_for(percent),
            candidate,
        )
}

/// A source of events that the ledger is sure to apply. It keeps a ledger
/// of its own, on which it tries each event before it hands the event out.
pub struct TransactionGenerator {
    state: State,
    tx_id: TransactionId,
    num_tx: Option<TransactionId>,
    max_client: ClientId,
    max_deposit: Amount,
    max_attempts: usize,
}

impl TransactionGenerator {
    /// The ledger as the events that were handed out so far have left it.
    pub closed spec fn ledger(&self) -> StateView {
        self.state@
    }

    /// The id that the next deposit or withdrawal gets.
    pub closed spec fn next_tx_id(&self) -> TransactionId {
        self.tx_id
    }

    /// The largest client id that is generated.
    pub closed spec fn max_client(&self) -> ClientId {
        self.max_client
    }

    /// The bound below which the generated deposits stay.
    pub closed spec fn max_deposit(&self) -> Amount {
        self.max_deposit
    }

    /// How many events are wanted, if their number is limited.
    pub closed spec fn num_tx(&self) -> Option<TransactionId> {
        self.num_tx
    }

    /// How often the generator tries to generate an event before it gives
    /// up.
    pub closed spec fn max_attempts(&self) -> usize {
        self.max_attempts
    }

    /// Whether the generator has come to its end before any attempt: the
    /// wanted number of events was reached, the ids have run out, or the
    /// generator was given no attempt at all.
    pub closed spec fn stopped(&self) -> bool {
        ||| self.num_tx matches Some(desired) && self.tx_id > desired
        ||| self.tx_id == TransactionId::MAX
        ||| self.max_attempts == 0
    }

    /// What [`Self::stopped`] says, over what the generator was made with
    /// and the id that comes next.
    pub proof fn lemma_stopped(&self)
        ensures
            self.stopped() <==> {
                ||| self.num_tx() matches Some(desired) && self.next_tx_id() > desired
                ||| self.next_tx_id() == TransactionId::MAX
                ||| self.max_attempts() == 0
            },
    {
    }

    /// What the generator keeps true: there is a client to choose, its
    /// ledger is well formed and consistent, and every id that the ledger
    /// knows is below the one that comes next.
    pub closed spec fn well_formed(&self) -> bool {
        &&& self.max_client >= 1
        &&& self.state@.well_formed()
        &&& self.state@.consistent()
        &&& forall|tx_id: TransactionId| #[trigger]
            self.state@.transactions.tx_ids.contains(tx_id) ==> tx_id < self.tx_id
    }

    fn new(
        num_tx: Option<TransactionId>,
        max_client: ClientId,
        max_deposit: Amount,
        max_attempts: usize,
    ) -> (generator: Self)
        requires
            max_client >= 1,
        ensures
            generator.well_formed(),
            generator.ledger() == StateView::empty(),
            generator.next_tx_id() == 1,
            generator.max_client() == max_client,
            generator.max_deposit() == max_deposit,
            generator.num_tx() == num_tx,
            generator.max_attempts() == max_attempts,
    {
        Self { state: State::new(), tx_id: 1, num_tx, max_client, max_deposit, max_attempts }
    }

    fn get_client_id(&self) -> (client_id: ClientId)
        requires
            self.max_client >= 1,
        ensures
            1 <= client_id <= self.max_client,
    {
        let drawn = random_in_range(1, self.max_client as i64 + 1);
        drawn as ClientId
    }

    /// Some transaction of the client that is under dispute, if there is
    /// one.
    pub fn get_disputed_tx_id_for_client(&self, client_id: ClientId) -> (found: Option<
        TransactionId,
    >)
        ensures
            picked_from(self.ledger().disputes.disputed_of(client_id), found),
    {
        let disputed_tx_ids = self.state.disputes.get_disputed_tx_ids_by_client(client_id);
        any_id(&disputed_tx_ids)
    }

    /// Some transaction of the client that was logged and never disputed,
    /// if there is one.
    pub fn get_undisputed_tx_id_for_client(&self, client_id: ClientId) -> (found: Option<
        TransactionId,
    >)
        ensures
            picked_from(undisputed_of(self.ledger(), client_id), found),
    {
        let all_tx_ids = self.state.transactions.get_tx_ids_by_client(client_id);
        let disputed_tx_ids = self.state.disputes.get_disputed_tx_ids_by_client(client_id);
        let settled_tx_ids = self.state.disputes.get_settled_tx_ids_by_client(client_id);
        // All ids of the client but those that are or were disputed.
        let undisputed_tx_ids = undisputed_ids(&all_tx_ids, &disputed_tx_ids, &settled_tx_ids);
        let found = any_id(&undisputed_tx_ids);
        proof {
            assert(undisputed_tx_ids@ =~= undisputed_of(self.state@, client_id));
        }
        found
    }

    /// Whether the log holds, under the client and the id, a deposit that
    /// was applied: only such a transaction can be disputed.
    pub fn is_transaction_disputable(&self, client_id: ClientId, tx_id: TransactionId) -> (found:
        bool)
        ensures
            found == disputable(self.ledger(), client_id, tx_id),
    {
        if let Some(tx) = self.state.transactions.get(client_id, tx_id) {
            if let Ok(Ok(_)) = tx.try_get_disputable() {
                return true;
            }
        }
        false
    }

    /// The deposit that is generated for a client and an amount that were
    /// drawn: see [`deposit_candidate`].
    pub fn deposit_for(&self, client_id: ClientId, amount: Amount) -> (candidate: Option<
        TransactionRecord,
    >)
        ensures
            candidate == deposit_candidate(
                self.ledger(),
                self.next_tx_id(),
                self.max_deposit(),
                client_id,
                amount,
            ),
    {
        if let Some(account) = self.state.accounts.get(client_id) {
            if account.locked {
                return None;
            }
        }
        if self.max_deposit > MIN_AMOUNT {
            let deposit = Deposit { client_id, tx_id: self.tx_id, amount };
            Some(TransactionRecord::from(deposit))
        } else {
            None
        }
    }

    /// The bound below which the amount of a withdrawal of the client is
    /// drawn, if the client can withdraw: see [`withdrawal_bound`].
    pub fn withdrawal_limit(&self, client_id: ClientId) -> (limit: Option<Amount>)
        ensures
            limit == withdrawal_bound(self.ledger(), client_id),
    {
        if let Some(account) = self.state.accounts.get(client_id) {
            if !account.locked && account.available > MIN_AMOUNT as Balance {
                // The amount must not exceed the available funds.
                let max_amount = amount_up_to(account.available);
                if max_amount > MIN_AMOUNT {
                    return Some(max_amount);
                }
            }
        }
        None
    }

    /// The withdrawal that is generated for a client and an amount that
    /// were drawn: see [`withdrawal_candidate`].
    pub fn withdrawal_for(&self, client_id: ClientId, amount: Amount) -> (candidate: Option<
        TransactionRecord,
    >)
        ensures
            candidate == withdrawal_candidate(
                self.ledger(),
                self.next_tx_id(),
                client_id,
                amount,
            ),
    {
        match self.withdrawal_limit(client_id) {
            Some(_) => {
                let withdrawal = Withdrawal { client_id, tx_id: self.tx_id, amount };
                Some(TransactionRecord::from(withdrawal))
            },
            None => None,
        }
    }

    /// The dispute that is generated for a client that was drawn and a
    /// transaction that was picked for it: see [`dispute_candidate`].
    pub fn dispute_for(&self, client_id: ClientId, picked: Option<TransactionId>) -> (candidate:
        Option<TransactionRecord>)
        ensures
            candidate == dispute_candidate(self.ledger(), client_id, picked),
    {
        if let Some(_) = self.state.accounts.get(client_id) {
            if let Some(tx_id) = picked {
                if self.is_transaction_disputable(client_id, tx_id) {
                    let dispute = Dispute { client_id, tx_id };
                    return Some(TransactionRecord::from(dispute));
                }
            }
        }
        None
    }

    /// The resolve that is generated for a client that was drawn and a
    /// disputed transaction that was picked for it: see
    /// [`settlement_candidate`].
    pub fn resolve_for(&self, client_id: ClientId, picked: Option<TransactionId>) -> (candidate:
        Option<TransactionRecord>)
        ensures
            candidate == settlement_candidate(
                self.ledger(),
                TransactionType::Resolve,
                client_id,
                picked,
            ),
    {
        if let Some(_) = self.state.accounts.get(client_id) {
            if let Some(tx_id) = picked {
                let resolve = Resolve { client_id, tx_id };
                return Some(TransactionRecord::from(resolve));
            }
        }
        None
    }

    /// The chargeback that is generated for a client that was drawn and a
    /// disputed transaction that was picked for it: see
    /// [`settlement_candidate`].
    pub fn chargeback_for(&self, client_id: ClientId, picked: Option<TransactionId>) -> (candidate:
        Option<TransactionRecord>)
        ensures
            candidate == settlement_candidate(
                self.ledger(),
                TransactionType::Chargeback,
                client_id,
                picked,
            ),
    {
        if let Some(_) = self.state.accounts.get(client_id) {
            if let Some(tx_id) = picked {
                let chargeback = Chargeback { client_id, tx_id };
                return Some(TransactionRecord::from(chargeback));
            }
        }
        None
    }

    /// Generate a deposit for a random client if possible: what
    /// [`Self::deposit_for`] gives for the client and the amount that are
    /// drawn.
    pub fn generate_deposit(&self) -> (candidate: Option<TransactionRecord>)
        requires
            self.well_formed(),
        ensures
            may_generate_deposit(
                self.ledger(),
                self.next_tx_id(),
                self.max_client(),
                self.max_deposit(),
                candidate,
            ),
            candidate matches Some(record) ==> {
                &&& accepted(self.ledger(), record)
                &&& record.transaction_type == TransactionType::Deposit
                &&& 1 <= record.client_id <= self.max_client()
                &&& record.tx_id == self.next_tx_id()
                &&& record.amount matches Some(amount) && MIN_AMOUNT <= amount < self.max_deposit()
            },
    {
        let client_id = self.get_client_id();
        let amount = if self.max_deposit > MIN_AMOUNT {
            random_in_range(MIN_AMOUNT, self.max_deposit)
        } else {
            MIN_AMOUNT
        };
        self.deposit_for(client_id, amount)
    }

    /// Generate a withdrawal for a random client if possible: what
    /// [`Self::withdrawal_for`] gives for the client that is drawn and the
    /// amount that is drawn below the client's bound.
    pub fn generate_withdrawal(&self) -> (candidate: Option<TransactionRecord>)
        requires
            self.well_formed(),
        ensures
            may_generate_withdrawal(
                self.ledger(),
                self.next_tx_id(),
                self.max_client(),
                candidate,
            ),
            candidate matches Some(record) ==> {
                &&& accepted(self.ledger(), record)
                &&& record.transaction_type == TransactionType::Withdrawal
                &&& 1 <= record.client_id <= self.max_client()
                &&& record.tx_id == self.next_tx_id()
            },
    {
        let client_id = self.get_client_id();
        let amount = match self.withdrawal_limit(client_id) {
            Some(max_amount) => random_in_range(MIN_AMOUNT, max_amount),
            None => MIN_AMOUNT,
        };
        self.withdrawal_for(client_id, amount)
    }

    /// Generate a dispute for a random client if possible: what
    /// [`Self::dispute_for`] gives for the client that is drawn and the
    /// transaction that is picked among those that were never disputed.
    pub fn generate_dispute(&self) -> (candidate: Option<TransactionRecord>)
        requires
            self.well_formed(),
        ensures
            may_generate_dispute(self.ledger(), self.max_client(), candidate),
            candidate matches Some(record) ==> {
                &&& accepted(self.ledger(), record)
                &&& record.transaction_type == TransactionType::Dispute
                &&& 1 <= record.client_id <= self.max_client()
            },
    {
        let client_id = self.get_client_id();
        let picked = self.get_undisputed_tx_id_for_client(client_id);
        self.dispute_for(client_id, picked)
    }

    /// Generate a resolve for a random client if possible: what
    /// [`Self::resolve_for`] gives for the client that is drawn and the
    /// transaction that is picked among those under dispute.
    pub fn generate_resolve(&self) -> (candidate: Option<TransactionRecord>)
        requires
            self.well_formed(),
        ensures
            may_generate_settlement(
                self.ledger(),
                TransactionType::Resolve,
                self.max_client(),
                candidate,
            ),
            candidate matches Some(record) ==> {
                &&& accepted(self.ledger(), record)
                &&& record.transaction_type == TransactionType::Resolve
                &&& 1 <= record.client_id <= self.max_client()
            },
    {
        let client_id = self.get_client_id();
        let picked = self.get_disputed_tx_id_for_client(client_id);
        self.resolve_for(client_id, picked)
    }

    /// Generate a chargeback for a random client if possible: what
    /// [`Self::chargeback_for`] gives for the client that is drawn and the
    /// transaction that is picked among those under dispute.
    pub fn generate_chargeback(&self) -> (candidate: Option<TransactionRecord>)
        requires
            self.well_formed(),
        ensures
            may_generate_settlement(
                self.ledger(),
                TransactionType::Chargeback,
                self.max_client(),
                candidate,
            ),
            candidate matches Some(record) ==> {
                &&& accepted(self.ledger(), record)
                &&& record.transaction_type == TransactionType::Chargeback
                &&& 1 <= record.client_id <= self.max_client()
            },
    {
        let client_id = self.get_client_id();
        let picked = self.get_disputed_tx_id_for_client(client_id);
        self.chargeback_for(client_id, picked)
    }

    /// Draws a kind of event, and generates an event of that kind if
    /// possible: what the function of that kind gives.
    pub fn generate_potential_transaction(&self) -> (candidate: Option<TransactionRecord>)
        requires
            self.well_formed(),
        ensures
            may_attempt(
                self.ledger(),
                self.next_tx_id(),
                self.max_client(),
                self.max_deposit(),
                candidate,
            ),
            candidate matches Some(record) ==> {
                &&& accepted(self.ledger(), record)
                &&& 1 <= record.client_id <= self.max_client()
                &&& record.amount is Some ==> record.tx_id == self.next_tx_id()
            },
    {
        let percent = random_in_range(0, 100) as u8;
        let transaction_type = transaction_type_for(percent);
        match transaction_type {
            TransactionType::Deposit => self.generate_deposit(),
            TransactionType::Withdrawal => self.generate_withdrawal(),
            TransactionType::Dispute => self.generate_dispute(),
            TransactionType::Resolve => self.generate_resolve(),
            TransactionType::Chargeback => self.generate_chargeback(),
        }
    }

    /// The next event, if one can still be had. The generator's ledger has
    /// applied every event that came out before. The attempts to generate
    /// an event are made one after the other, and the first event that an
    /// attempt gives comes out: it is one that this ledger applies, and the
    /// generator's ledger applies it too. Nothing comes out once the wanted
    /// number of events was reached, once the ids have run out, or where
    /// every one of the attempts that the generator was given came to
    /// nothing.
    pub fn next(&mut self) -> (event: Option<TransactionRecord>)
        requires
            old(self).well_formed(),
        ensures
            final(self).well_formed(),
            final(self).max_client() == old(self).max_client(),
            final(self).max_deposit() == old(self).max_deposit(),
            final(self).num_tx() == old(self).num_tx(),
            final(self).max_attempts() == old(self).max_attempts(),
            old(self).stopped() ==> event is None,
            !old(self).stopped() ==> may_attempt(
                old(self).ledger(),
                old(self).next_tx_id(),
                old(self).max_client(),
                old(self).max_deposit(),
                event,
            ),
            match event {
                Some(record) => {
                    &&& accepted(old(self).ledger(), record)
                    &&& final(self).ledger() == handled(old(self).ledger(), record).0
                    &&& final(self).next_tx_id() == old(self).next_tx_id() + 1
                    &&& 1 <= record.client_id <= old(self).max_client()
                    &&& record.amount is Some ==> record.tx_id == old(self).next_tx_id()
                    &&& old(self).num_tx() matches Some(desired) ==> old(self).next_tx_id()
                        <= desired
                    &&& old(self).next_tx_id() < TransactionId::MAX
                    &&& old(self).max_attempts() > 0
                },
                None => {
                    &&& final(self).ledger() == old(self).ledger()
                    &&& final(self).next_tx_id() == old(self).next_tx_id()
                },
            },
    {
        if let Some(desired) = self.num_tx {
            // Maybe break early
            if self.tx_id > desired {
                return None;
            }
        }
        if self.tx_id == TransactionId::MAX {
            return None;
        }
        // It is possible that all accounts are locked and all disputes are
        // settled, so that no further event can be generated.

        let mut attempt: usize = 0;
        while attempt < self.max_attempts
            invariant
                self.well_formed(),
                *self == *old(self),
                self.tx_id < TransactionId::MAX,
                self.num_tx matches Some(desired) ==> self.tx_id <= desired,
                attempt > 0 ==> may_attempt(
                    self.ledger(),
                    self.next_tx_id(),
                    self.max_client(),
                    self.max_deposit(),
                    None,
                ),
            decreases self.max_attempts - attempt,
        {
            if let Some(tx) = self.generate_potential_transaction() {
                proof {
                    lemma_handled_keeps_well_formed(self.state@, tx);
                    lemma_handled_keeps_consistent(self.state@, tx);
                }
                let result = handle_transaction(tx, &mut self.state);
                assert(result is Ok);
                self.tx_id += 1;
                return Some(tx);
            }
            attempt += 1;
        }
        None
    }
}

/// Generate a random sequence of valid transactions: a source of events
/// for clients from 1 to `max_client`, with deposits below `max_deposit`.
/// It hands out `num_tx` events at most, if a number is given, and gives
/// up on an event after `max_attempts` attempts to generate one.
pub fn generate_random_valid_transaction_sequence(
    num_tx: Option<TransactionId>,
    max_client: ClientId,
    max_deposit: Amount,
    max_attempts: usize,
) -> (generator: TransactionGenerator)
    requires
        max_client >= 1,
    ensures
        generator.well_formed(),
        generator.ledger() == StateView::empty(),
        generator.next_tx_id() == 1,
        generator.max_client() == max_client,
        generator.max_deposit() == max_deposit,
        generator.num_tx() == num_tx,
        generator.max_attempts() == max_attempts,
{
    TransactionGenerator::new(num_tx, max_client, max_deposit, max_attempts)
}

} // verus!
