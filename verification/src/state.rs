use std::collections::hash_map;
use std::collections::hash_map::Entry;
use std::collections::HashMap;
use std::collections::HashSet;
use vstd::prelude::*;
use vstd::std_specs::iter::IteratorSpec;

use crate::account::{AccountAccess, WrapsAccount};
use crate::currency::amount_limit;
use crate::types::{Account, AccountView, Balance, TransactionContainer, TransactionError};
use crate::types::{ClientId, TransactionId};

verus! {

broadcast use vstd::std_specs::hash::group_hash_axioms;

/// The account of `client_id` among `accounts`; the empty account where
/// the client has none yet.
pub open spec fn account_or_empty(
    accounts: Map<ClientId, AccountView>,
    client_id: ClientId,
) -> AccountView {
    if accounts.contains_key(client_id) {
        accounts[client_id]
    } else {
        AccountView::empty()
    }
}

/// Component of the ledger that holds the accounts: balances and locks.
#[derive(Debug, PartialEq)]
pub struct AccountsState(HashMap<ClientId, Account>);

impl Default for AccountsState {
    fn default() -> (accounts: Self)
        ensures
            accounts@ == Map::<ClientId, AccountView>::empty(),
    {
        let accounts = AccountsState(HashMap::new());
        assert(accounts@ =~= Map::<ClientId, AccountView>::empty());
        accounts
    }
}

impl From<HashMap<ClientId, Account>> for AccountsState {
    /// The accounts that the map holds, by client.
    fn from(inner: HashMap<ClientId, Account>) -> (accounts: Self)
        ensures
            accounts.entries() == inner@,
    {
        Self(inner)
    }
}

impl vstd::std_specs::convert::FromSpecImpl<HashMap<ClientId, Account>> for AccountsState {
    open spec fn obeys_from_spec() -> bool {
        true
    }

    closed spec fn from_spec(inner: HashMap<ClientId, Account>) -> Self {
        AccountsState(inner)
    }
}

impl View for AccountsState {
    type V = Map<ClientId, AccountView>;

    /// The accounts by client, each as a mathematical value.
    closed spec fn view(&self) -> Map<ClientId, AccountView> {
        Map::new(
            |client_id: ClientId| self.0@.contains_key(client_id),
            |client_id: ClientId| self.0@[client_id]@,
        )
    }
}

impl AccountsState {
    /// The accounts by client, as the machine holds them.
    pub closed spec fn entries(&self) -> Map<ClientId, Account> {
        self.0@
    }

    /// The view holds the same accounts as [`Self::entries`].
    pub proof fn lemma_view_of_entries(&self)
        ensures
            self@.dom() == self.entries().dom(),
            forall|client_id: ClientId| #[trigger]
                self.entries().contains_key(client_id) ==> self@[client_id]
                    == self.entries()[client_id]@,
    {
        assert(self@.dom() =~= self.entries().dom());
    }

    /// There are finitely many accounts.
    pub proof fn lemma_entries_finite(&self)
        ensures
            self.entries().dom().finite(),
            self@.dom().finite(),
    {
        assert(self@.dom() =~= self.entries().dom());
    }

    /// The account of a client, if the client has one.
    pub fn get(&self, client_id: ClientId) -> (found: Option<&Account>)
        ensures
            match found {
                Some(account) => self@.contains_key(client_id) && account@ == self@[client_id],
                None => !self@.contains_key(client_id),
            },
    {
        self.0.get(&client_id)
    }

    /// The account of a client, created empty if the client had none.
    pub fn get_or_default(&mut self, client_id: ClientId) -> (account: &Account)
        ensures
            account@ == account_or_empty(old(self)@, client_id),
            final(self)@ == old(self)@.insert(client_id, account@),
    {
        self.0.entry(client_id).or_insert(Account::default())
    }

    /// A handle on the account of a client, if the client has one. What is
    /// done through the handle is done to the stored account, and nothing
    /// else changes.
    pub fn get_mut<'a>(&'a mut self, client_id: ClientId) -> (found: Option<AccountAccess<'a>>)
        ensures
            match found {
                Some(access) => {
                    &&& old(self)@.contains_key(client_id)
                    &&& access.account()@ == old(self)@[client_id]
                    &&& access is Locked <==> old(self)@[client_id].locked
                    &&& final(self)@ == old(self)@.insert(
                        client_id,
                        match access {
                            AccountAccess::Locked(account) => (*final(account.0))@,
                            AccountAccess::Unlocked(account) => (*final(account.0))@,
                        },
                    )
                },
                None => !old(self)@.contains_key(client_id) && final(self)@ == old(self)@,
            },
    {
        match self.0.entry(client_id) {
            Entry::Occupied(entry) => {
                Some(entry.into_mut().access())
            },
            Entry::Vacant(_) => None,
        }
    }

    /// A handle on the account of a client, which is created empty if the
    /// client had none.
    pub fn get_mut_or_default<'a>(&'a mut self, client_id: ClientId) -> (access: AccountAccess<'a>)
        ensures
            access.account()@ == account_or_empty(old(self)@, client_id),
            access is Locked <==> account_or_empty(old(self)@, client_id).locked,
            final(self)@ == old(self)@.insert(
                client_id,
                match access {
                    AccountAccess::Locked(account) => (*final(account.0))@,
                    AccountAccess::Unlocked(account) => (*final(account.0))@,
                },
            ),
    {
        self.0.entry(client_id).or_insert(Account::default()).access()
    }

    /// Walks the accounts, in no particular order: each client that has an
    /// account comes once, with that account.
    pub fn iter(&self) -> (accounts: hash_map::Iter<'_, ClientId, Account>)
        ensures
            accounts.remaining().unref().to_set() == self.entries().kv_pairs(),
            accounts.remaining().no_duplicates(),
            accounts.remaining().len() == self.entries().len(),
            IteratorSpec::decrease(&accounts) is Some,
            IteratorSpec::initial_value_relation(&accounts, &accounts),
    {
        self.0.iter()
    }
}

/// The log of deposits and withdrawals as a mathematical value.
pub struct TransactionsView {
    /// What was logged, by the client and the transaction it was logged
    /// under.
    pub by_client: Map<(ClientId, TransactionId), TransactionContainer>,
    /// Every transaction id that was ever logged, whatever the client.
    pub tx_ids: Set<TransactionId>,
}

impl TransactionsView {
    /// The log before any event.
    pub open spec fn empty() -> TransactionsView {
        TransactionsView { by_client: Map::empty(), tx_ids: Set::empty() }
    }

    /// The log after `transaction` was handed in under `client_id` and
    /// `tx_id`. The id is known from then on. The transaction is kept
    /// unless the id was known already: nothing that was logged is ever
    /// replaced.
    pub open spec fn logged(
        self,
        client_id: ClientId,
        tx_id: TransactionId,
        transaction: TransactionContainer,
    ) -> TransactionsView {
        TransactionsView {
            by_client: if self.tx_ids.contains(tx_id) || self.by_client.contains_key(
                (client_id, tx_id),
            ) {
                self.by_client
            } else {
                self.by_client.insert((client_id, tx_id), transaction)
            },
            tx_ids: self.tx_ids.insert(tx_id),
        }
    }

    /// Whether every logged transaction stands under an id that is known:
    /// nothing is logged behind the back of the ids.
    pub open spec fn indexed(self) -> bool {
        forall|key: (ClientId, TransactionId)| #[trigger]
            self.by_client.contains_key(key) ==> self.tx_ids.contains(key.1)
    }

    /// In a log that is indexed, a transaction that is handed in under an
    /// id that is not known yet is kept: it is found afterwards under its
    /// client and that id. The log stays indexed whatever is handed in.
    pub proof fn lemma_logged_is_found(
        self,
        client_id: ClientId,
        tx_id: TransactionId,
        transaction: TransactionContainer,
    )
        requires
            self.indexed(),
        ensures
            self.logged(client_id, tx_id, transaction).indexed(),
            !self.tx_ids.contains(tx_id) ==> {
                &&& self.logged(client_id, tx_id, transaction).by_client.contains_key(
                    (client_id, tx_id),
                )
                &&& self.logged(client_id, tx_id, transaction).by_client[(client_id, tx_id)]
                    == transaction
            },
    {
        let after = self.logged(client_id, tx_id, transaction);
        assert forall|key: (ClientId, TransactionId)| #[trigger]
            after.by_client.contains_key(key) implies after.tx_ids.contains(key.1) by {
            if self.by_client.contains_key(key) {
            }
        }
    }

    /// The ids of the transactions logged under `client_id`.
    pub open spec fn tx_ids_of(self, client_id: ClientId) -> Set<TransactionId> {
        Set::new(|tx_id: TransactionId| self.by_client.contains_key((client_id, tx_id)))
    }
}

/// Whether `kept` holds those of the first `count` of `items` that are
/// `wanted`, and nothing else.
pub open spec fn gathers(
    kept: Set<TransactionId>,
    items: Seq<&TransactionId>,
    count: int,
    wanted: Set<TransactionId>,
) -> bool {
    forall|tx_id: TransactionId|
        kept.contains(tx_id) <==> wanted.contains(tx_id) && exists|i: int|
            0 <= i < count && *items[i] == tx_id
}

/// One step of gathering the wanted ones of the `items`, which are all the
/// elements of `all`: where the next item joins what was kept if it is
/// wanted, what is kept holds the wanted ones of one item more; and once
/// no item is left, it holds the wanted elements of `all`.
pub proof fn lemma_gathers_step(
    before: Set<TransactionId>,
    after: Set<TransactionId>,
    items: Seq<&TransactionId>,
    count: int,
    wanted: Set<TransactionId>,
    all: Set<TransactionId>,
)
    requires
        gathers(before, items, count, wanted),
        0 <= count < items.len(),
        after == if wanted.contains(*items[count]) {
            before.insert(*items[count])
        } else {
            before
        },
        items.unref().to_set() == all,
    ensures
        gathers(after, items, count + 1, wanted),
        count + 1 == items.len() ==> after == all.intersect(wanted),
{
    assert forall|tx_id: TransactionId| after.contains(tx_id) implies wanted.contains(tx_id)
        && exists|i: int| 0 <= i < count + 1 && *items[i] == tx_id by {
        if tx_id == *items[count] {
            assert(0 <= count < count + 1 && *items[count] == tx_id);
        } else {
            let i = choose|i: int| 0 <= i < count && *items[i] == tx_id;
            assert(0 <= i < count + 1 && *items[i] == tx_id);
        }
    }
    assert forall|tx_id: TransactionId|
        wanted.contains(tx_id) && (exists|i: int|
            0 <= i < count + 1 && *items[i] == tx_id) implies after.contains(tx_id) by {
        let i = choose|i: int| 0 <= i < count + 1 && *items[i] == tx_id;
        if i < count {
            assert(0 <= i < count && *items[i] == tx_id);
        }
    }
    if count + 1 == items.len() {
        let plain = items.unref();
        let goal = all.intersect(wanted);
        assert forall|tx_id: TransactionId| goal.contains(tx_id) implies after.contains(tx_id) by {
            assert(plain.to_set().contains(tx_id));
            assert(plain.contains(tx_id));
            let i = choose|i: int| 0 <= i < plain.len() && plain[i] == tx_id;
            assert(0 <= i < count + 1 && *items[i] == tx_id);
        }
        assert forall|tx_id: TransactionId| after.contains(tx_id) implies goal.contains(tx_id) by {
            let i = choose|i: int| 0 <= i < count + 1 && *items[i] == tx_id;
            assert(plain[i] == tx_id);
            assert(plain.to_set().contains(tx_id));
        }
        assert(after =~= goal);
    }
}

/// The ids that a set holds, in a set of their own.
fn copy_ids(source: &HashSet<TransactionId>) -> (copy: HashSet<TransactionId>)
    ensures
        copy@ == source@,
{
    let mut copy: HashSet<TransactionId> = HashSet::new();
    for tx_id in iter: source.iter()
        invariant
            iter.seq().unref().to_set() == source@,
            gathers(copy@, iter.seq(), iter.index(), Set::full()),
            iter.index() == iter.seq().len() ==> copy@ == source@,
    {
        let ghost before = copy@;
        copy.insert(*tx_id);
        proof {
            assert(gathers(copy@, iter.seq(), iter.index() + 1, Set::full()) && (iter.index() + 1
                == iter.seq().len() ==> copy@ == source@)) by {
                lemma_gathers_step(
                    before,
                    copy@,
                    iter.seq(),
                    iter.index(),
                    Set::full(),
                    source@,
                );
                assert(source@.intersect(Set::full()) =~= source@);
            }
        }
    }
    copy
}

/// The keys of a map, in a set.
fn key_ids(source: &HashMap<TransactionId, TransactionContainer>) -> (keys: HashSet<TransactionId>)
    ensures
        keys@ == source@.dom(),
{
    let mut keys: HashSet<TransactionId> = HashSet::new();
    for tx_id in iter: source.keys()
        invariant
            iter.seq().unref().to_set() == source@.dom(),
            gathers(keys@, iter.seq(), iter.index(), Set::full()),
            iter.index() == iter.seq().len() ==> keys@ == source@.dom(),
    {
        let ghost before = keys@;
        keys.insert(*tx_id);
        proof {
            assert(gathers(keys@, iter.seq(), iter.index() + 1, Set::full()) && (iter.index() + 1
                == iter.seq().len() ==> keys@ == source@.dom())) by {
                lemma_gathers_step(
                    before,
                    keys@,
                    iter.seq(),
                    iter.index(),
                    Set::full(),
                    source@.dom(),
                );
                assert(source@.dom().intersect(Set::full()) =~= source@.dom());
            }
        }
    }
    keys
}

/// Record of the transactions that later events can refer to: deposits and
/// withdrawals, applied or refused. Disputes, resolves and chargebacks are
/// not kept, since no event refers to them.
#[derive(Debug)]
pub struct TransactionsState {
    by_client: HashMap<ClientId, HashMap<TransactionId, TransactionContainer>>,
    tx_ids: HashSet<TransactionId>,
}

impl Default for TransactionsState {
    fn default() -> (transactions: Self)
        ensures
            transactions@ == TransactionsView::empty(),
            transactions@.indexed(),
    {
        let transactions = TransactionsState { by_client: HashMap::new(), tx_ids: HashSet::new() };
        assert(transactions@.by_client =~= Map::empty());
        transactions
    }
}

impl View for TransactionsState {
    type V = TransactionsView;

    closed spec fn view(&self) -> TransactionsView {
        TransactionsView {
            by_client: Map::new(
                |key: (ClientId, TransactionId)|
                    self.by_client@.contains_key(key.0) && self.by_client@[key.0]@.contains_key(
                        key.1,
                    ),
                |key: (ClientId, TransactionId)| self.by_client@[key.0]@[key.1],
            ),
            tx_ids: self.tx_ids@,
        }
    }
}

impl TransactionsState {
    /// Whether a deposit or a withdrawal with this id was ever logged, for
    /// any client.
    pub fn tx_exists(&self, tx_id: TransactionId) -> (known: bool)
        ensures
            known == self@.tx_ids.contains(tx_id),
    {
        self.tx_ids.contains(&tx_id)
    }

    /// What was logged under a client and a transaction id, if anything.
    pub fn get(&self, client_id: ClientId, tx_id: TransactionId) -> (found: Option<
        &TransactionContainer,
    >)
        ensures
            match found {
                Some(transaction) => self@.by_client.contains_key((client_id, tx_id))
                    && *transaction == self@.by_client[(client_id, tx_id)],
                None => !self@.by_client.contains_key((client_id, tx_id)),
            },
    {
        match self.by_client.get(&client_id) {
            Some(client_txs) => client_txs.get(&tx_id),
            None => None,
        }
    }

    /// Logs a deposit or a withdrawal. Where the id is known already,
    /// nothing is logged: what was logged first stays. Where it is not, the
    /// transaction is found afterwards under its client and the id, in
    /// every log that was made empty and filled by this function: such a
    /// log is indexed, and stays so.
    pub fn insert(
        &mut self,
        client_id: ClientId,
        tx_id: TransactionId,
        transaction: TransactionContainer,
    )
        ensures
            final(self)@ == old(self)@.logged(client_id, tx_id, transaction),
            old(self)@.indexed() ==> final(self)@.indexed(),
            old(self)@.indexed() && !old(self)@.tx_ids.contains(tx_id) ==> {
                &&& final(self)@.by_client.contains_key((client_id, tx_id))
                &&& final(self)@.by_client[(client_id, tx_id)] == transaction
            },
    {
        proof {
            if old(self)@.indexed() {
                old(self)@.lemma_logged_is_found(client_id, tx_id, transaction);
            }
        }
        // Store the id globally, so that a second use of it can be told.
        let fresh = self.tx_ids.insert(tx_id);
        if fresh {
            let client_txs = self.by_client.entry(client_id).or_insert(HashMap::new());
            if !client_txs.contains_key(&tx_id) {
                client_txs.insert(tx_id, transaction);
            }
        }
        proof {
            assert(self@.by_client =~= old(self)@.logged(client_id, tx_id, transaction).by_client);
        }
    }

    /// The ids of the transactions logged under a client.
    pub fn get_tx_ids_by_client(&self, client_id: ClientId) -> (tx_ids: HashSet<TransactionId>)
        ensures
            tx_ids@ == self@.tx_ids_of(client_id),
    {
        let tx_ids = match self.by_client.get(&client_id) {
            Some(client_txs) => key_ids(client_txs),
            None => HashSet::new(),
        };
        assert(tx_ids@ =~= self@.tx_ids_of(client_id));
        tx_ids
    }
}

/// The state of all disputes, past and present, as a mathematical value.
pub struct DisputesView {
    /// The transactions under dispute, each with its client.
    pub active: Set<(ClientId, TransactionId)>,
    /// The transactions whose dispute was settled, each with its client.
    pub settled: Set<(ClientId, TransactionId)>,
}

impl DisputesView {
    /// The state before any dispute.
    pub open spec fn empty() -> DisputesView {
        DisputesView { active: Set::empty(), settled: Set::empty() }
    }

    /// The state once the transaction is under dispute.
    pub open spec fn with_dispute(self, client_id: ClientId, tx_id: TransactionId) -> DisputesView {
        DisputesView { active: self.active.insert((client_id, tx_id)), ..self }
    }

    /// The state once the dispute over the transaction is settled.
    pub open spec fn with_settlement(
        self,
        client_id: ClientId,
        tx_id: TransactionId,
    ) -> DisputesView {
        DisputesView {
            active: self.active.remove((client_id, tx_id)),
            settled: self.settled.insert((client_id, tx_id)),
        }
    }

    /// Whether no transaction is both under dispute and settled: a
    /// transaction has one status at a time.
    pub open spec fn exclusive(self) -> bool {
        self.active.disjoint(self.settled)
    }

    /// The transactions of `client_id` that are under dispute.
    pub open spec fn disputed_of(self, client_id: ClientId) -> Set<TransactionId> {
        Set::new(|tx_id: TransactionId| self.active.contains((client_id, tx_id)))
    }

    /// The transactions of `client_id` whose dispute was settled.
    pub open spec fn settled_of(self, client_id: ClientId) -> Set<TransactionId> {
        Set::new(|tx_id: TransactionId| self.settled.contains((client_id, tx_id)))
    }
}

/// The pairs that a map from clients to sets of ids stands for.
spec fn pairs_of(sets: Map<ClientId, HashSet<TransactionId>>) -> Set<(ClientId, TransactionId)> {
    Set::new(
        |pair: (ClientId, TransactionId)|
            sets.contains_key(pair.0) && sets[pair.0]@.contains(pair.1),
    )
}

/// Current state of all disputes, past and present. Once a dispute is
/// filed for a transaction, the transaction is actively disputed. Once a
/// resolve or a chargeback has followed, it is settled, and can no longer
/// be disputed.
#[derive(Debug)]
pub struct DisputesState {
    active: HashMap<ClientId, HashSet<TransactionId>>,
    settled: HashMap<ClientId, HashSet<TransactionId>>,
}

impl Default for DisputesState {
    fn default() -> (disputes: Self)
        ensures
            disputes@ == DisputesView::empty(),
            disputes@.exclusive(),
    {
        let disputes = DisputesState { active: HashMap::new(), settled: HashMap::new() };
        assert(disputes@.active =~= Set::empty());
        assert(disputes@.settled =~= Set::empty());
        disputes
    }
}

impl View for DisputesState {
    type V = DisputesView;

    closed spec fn view(&self) -> DisputesView {
        DisputesView { active: pairs_of(self.active@), settled: pairs_of(self.settled@) }
    }
}

impl DisputesState {
    /// Determine whether a client's transaction is actively disputed.
    pub fn is_disputed(&self, client_id: ClientId, tx_id: TransactionId) -> (disputed: bool)
        ensures
            disputed == self@.active.contains((client_id, tx_id)),
    {
        if let Some(client_active) = self.active.get(&client_id) {
            client_active.contains(&tx_id)
        } else {
            false
        }
    }

    /// Determine whether a client's transaction has been disputed and
    /// settled.
    pub fn is_settled(&self, client_id: ClientId, tx_id: TransactionId) -> (settled: bool)
        ensures
            settled == self@.settled.contains((client_id, tx_id)),
    {
        if let Some(client_settled) = self.settled.get(&client_id) {
            client_settled.contains(&tx_id)
        } else {
            false
        }
    }

    /// Mark a transaction as actively disputed. It is refused, and nothing
    /// changes, if the transaction is under dispute already, and if a
    /// dispute over it was settled: settled is the end.
    pub fn dispute_tx(&mut self, client_id: ClientId, tx_id: TransactionId) -> (result: Result<
        (),
        TransactionError,
    >)
        ensures
            final(self)@ == if old(self)@.active.contains((client_id, tx_id))
                || old(self)@.settled.contains((client_id, tx_id)) {
                old(self)@
            } else {
                old(self)@.with_dispute(client_id, tx_id)
            },
            result == if old(self)@.active.contains((client_id, tx_id)) {
                Err::<(), _>(TransactionError::TxAlreadyDisputed { client: client_id, tx: tx_id })
            } else if old(self)@.settled.contains((client_id, tx_id)) {
                Err::<(), _>(
                    TransactionError::DisputeAlreadySettled { client: client_id, tx: tx_id },
                )
            } else {
                Ok(())
            },
            old(self)@.exclusive() ==> final(self)@.exclusive(),
    {
        if self.is_disputed(client_id, tx_id) {
            return Err(TransactionError::TxAlreadyDisputed { client: client_id, tx: tx_id });
        }
        if self.is_settled(client_id, tx_id) {
            return Err(TransactionError::DisputeAlreadySettled { client: client_id, tx: tx_id });
        }
        let client_disputes = self.active.entry(client_id).or_insert(HashSet::new());
        client_disputes.insert(tx_id);
        proof {
            assert(self@.active =~= old(self)@.active.insert((client_id, tx_id)));
        }
        Ok(())
    }

    /// Mark a transaction as settled: it leaves the active disputes and is
    /// settled from then on. It is refused, and nothing changes, unless the
    /// transaction is under dispute, and if a dispute over it was settled
    /// before.
    pub fn settle_dispute(&mut self, client_id: ClientId, tx_id: TransactionId) -> (result: Result<
        (),
        TransactionError,
    >)
        ensures
            final(self)@ == if old(self)@.active.contains((client_id, tx_id))
                && !old(self)@.settled.contains((client_id, tx_id)) {
                old(self)@.with_settlement(client_id, tx_id)
            } else {
                old(self)@
            },
            result == if !old(self)@.active.contains((client_id, tx_id)) {
                Err::<(), _>(TransactionError::TxNotDisputed { client: client_id, tx: tx_id })
            } else if old(self)@.settled.contains((client_id, tx_id)) {
                Err::<(), _>(
                    TransactionError::DisputeAlreadySettled { tx: tx_id, client: client_id },
                )
            } else {
                Ok(())
            },
            old(self)@.exclusive() ==> final(self)@.exclusive(),
    {
        if !self.is_disputed(client_id, tx_id) {
            return Err(TransactionError::TxNotDisputed { client: client_id, tx: tx_id });
        }
        if self.is_settled(client_id, tx_id) {
            return Err(TransactionError::DisputeAlreadySettled { tx: tx_id, client: client_id });
        }
        match self.active.entry(client_id) {
            Entry::Occupied(entry) => {
                entry.into_mut().remove(&tx_id);
            },
            Entry::Vacant(_) => {},
        }
        proof {
            assert(self@.active =~= old(self)@.active.remove((client_id, tx_id)));
        }
        let client_settled = self.settled.entry(client_id).or_insert(HashSet::new());
        client_settled.insert(tx_id);
        proof {
            assert(self@.settled =~= old(self)@.settled.insert((client_id, tx_id)));
        }
        Ok(())
    }

    /// Get the set of all disputed transaction ids for a client.
    pub fn get_disputed_tx_ids_by_client(&self, client_id: ClientId) -> (tx_ids: HashSet<
        TransactionId,
    >)
        ensures
            tx_ids@ == self@.disputed_of(client_id),
    {
        let tx_ids = match self.active.get(&client_id) {
            Some(client_active) => copy_ids(client_active),
            None => HashSet::new(),
        };
        assert(tx_ids@ =~= self@.disputed_of(client_id));
        tx_ids
    }

    /// Get the set of all settled transaction ids for a client.
    pub fn get_settled_tx_ids_by_client(&self, client_id: ClientId) -> (tx_ids: HashSet<
        TransactionId,
    >)
        ensures
            tx_ids@ == self@.settled_of(client_id),
    {
        let tx_ids = match self.settled.get(&client_id) {
            Some(client_settled) => copy_ids(client_settled),
            None => HashSet::new(),
        };
        assert(tx_ids@ =~= self@.settled_of(client_id));
        tx_ids
    }
}

/// The whole ledger as a mathematical value.
pub struct StateView {
    pub accounts: Map<ClientId, AccountView>,
    pub transactions: TransactionsView,
    pub disputes: DisputesView,
}

impl StateView {
    /// The ledger before any event.
    pub open spec fn empty() -> StateView {
        StateView {
            accounts: Map::empty(),
            transactions: TransactionsView::empty(),
            disputes: DisputesView::empty(),
        }
    }

    /// How far a balance can be from zero: one [`amount_limit`] for each
    /// step that the ledger has taken. A step is counted by what it leaves
    /// behind: a logged id, a dispute, and twice a settled dispute, which
    /// was a dispute before.
    pub open spec fn allowance(self) -> int {
        (self.transactions.tx_ids.len() + self.disputes.active.len() + 2
            * self.disputes.settled.len()) * amount_limit()
    }

    /// Whether the balances of `account` are within the allowance.
    pub open spec fn within_allowance(self, account: AccountView) -> bool {
        &&& -self.allowance() <= account.available <= self.allowance()
        &&& -self.allowance() <= account.held <= self.allowance()
    }

    /// What holds of a ledger that only handled events have changed, and
    /// what keeps its arithmetic within the machine's range: no
    /// transaction is both under dispute and settled, and every balance is
    /// within the allowance.
    pub open spec fn well_formed(self) -> bool {
        &&& self.transactions.tx_ids.finite()
        &&& self.disputes.active.finite()
        &&& self.disputes.settled.finite()
        &&& self.disputes.exclusive()
        &&& forall|client_id: ClientId| #[trigger]
            self.accounts.contains_key(client_id) ==> self.within_allowance(
                self.accounts[client_id],
            )
    }

    /// Whether the parts of the ledger agree with each other, as they do
    /// where only handled events have changed them: what is logged is
    /// logged under its own client and id, the id is known, the client of
    /// an applied deposit has an account, and what is or was under dispute
    /// is an applied deposit.
    pub open spec fn consistent(self) -> bool {
        &&& forall|key: (ClientId, TransactionId)| #[trigger]
            self.transactions.by_client.contains_key(key) ==> {
                &&& self.transactions.tx_ids.contains(key.1)
                &&& match self.transactions.by_client[key] {
                    TransactionContainer::Deposit(Ok(deposit)) => {
                        &&& deposit.client_id == key.0
                        &&& deposit.tx_id == key.1
                        &&& self.accounts.contains_key(key.0)
                    },
                    TransactionContainer::Withdrawal(Ok(withdrawal)) => {
                        &&& withdrawal.client_id == key.0
                        &&& withdrawal.tx_id == key.1
                    },
                    _ => true,
                }
            }
        &&& forall|key: (ClientId, TransactionId)| #[trigger]
            self.disputes.active.contains(key) ==> {
                &&& self.transactions.by_client.contains_key(key)
                &&& self.transactions.by_client[key] matches TransactionContainer::Deposit(Ok(_))
            }
        &&& forall|key: (ClientId, TransactionId)| #[trigger]
            self.disputes.settled.contains(key) ==> {
                &&& self.transactions.by_client.contains_key(key)
                &&& self.transactions.by_client[key] matches TransactionContainer::Deposit(Ok(_))
            }
    }

    /// The largest allowance that a ledger can reach. It leaves room for
    /// one more amount within the machine's range.
    pub open spec fn allowance_limit() -> int {
        (0x1_0000_0000 + 3 * 0x1_0000_0000_0000) * amount_limit()
    }

    /// The allowance of a well-formed ledger is within the limit: there are
    /// only so many ids, and so many pairs of a client and an id.
    pub proof fn lemma_allowance_within_limit(self)
        requires
            self.well_formed(),
        ensures
            0 <= self.allowance() <= Self::allowance_limit(),
            Self::allowance_limit() + amount_limit() <= Balance::MAX,
    {
        lemma_ids_bounded(self.transactions.tx_ids, 0x1_0000_0000);
        lemma_pairs_bounded(self.disputes.active, 0x1_0000_0000_0000);
        lemma_pairs_bounded(self.disputes.settled, 0x1_0000_0000_0000);
    }
}

/// A finite set of ids below `bound` has at most `bound` elements.
proof fn lemma_ids_bounded(ids: Set<TransactionId>, bound: nat)
    requires
        ids.finite(),
        forall|tx_id: TransactionId| ids.contains(tx_id) ==> tx_id < bound,
    ensures
        ids.len() <= bound,
    decreases bound,
{
    if bound == 0 {
        assert(ids =~= Set::empty());
    } else if bound > 0x1_0000_0000 {
        lemma_ids_bounded(ids, (bound - 1) as nat);
    } else {
        let last = (bound - 1) as TransactionId;
        lemma_ids_bounded(ids.remove(last), (bound - 1) as nat);
    }
}

/// The place of a pair among all pairs, counted client by client.
spec fn pair_rank(pair: (ClientId, TransactionId)) -> int {
    pair.0 * 0x1_0000_0000 + pair.1
}

/// A finite set of pairs ranked below `bound` has at most `bound` elements.
proof fn lemma_pairs_bounded(pairs: Set<(ClientId, TransactionId)>, bound: nat)
    requires
        pairs.finite(),
        forall|pair: (ClientId, TransactionId)| pairs.contains(pair) ==> pair_rank(pair) < bound,
    ensures
        pairs.len() <= bound,
    decreases bound,
{
    if bound == 0 {
        assert forall|pair: (ClientId, TransactionId)| !pairs.contains(pair) by {
            assert(pair_rank(pair) >= 0);
        }
        assert(pairs =~= Set::empty());
    } else if bound > 0x1_0000_0000_0000 {
        lemma_pairs_bounded(pairs, (bound - 1) as nat);
    } else {
        let rank = bound - 1;
        let last = ((rank / 0x1_0000_0000) as ClientId, (rank % 0x1_0000_0000) as TransactionId);
        assert(pair_rank(last) == rank);
        assert forall|pair: (ClientId, TransactionId)|
            pairs.remove(last).contains(pair) implies pair_rank(pair) < bound - 1 by {
            if pair_rank(pair) == rank {
                assert(pair.0 == last.0 && pair.1 == last.1);
            }
        }
        lemma_pairs_bounded(pairs.remove(last), (bound - 1) as nat);
    }
}

/// The ledger: the accounts, the log of deposits and withdrawals, and the
/// state of the disputes.
#[derive(Debug)]
pub struct State {
    pub accounts: AccountsState,
    pub transactions: TransactionsState,
    pub disputes: DisputesState,
}

impl View for State {
    type V = StateView;

    open spec fn view(&self) -> StateView {
        StateView {
            accounts: self.accounts@,
            transactions: self.transactions@,
            disputes: self.disputes@,
        }
    }
}

impl State {
    /// A ledger without accounts, transactions or disputes. It is well
    /// formed and consistent.
    pub fn new() -> (state: Self)
        ensures
            state@ == StateView::empty(),
            state@.well_formed(),
            state@.consistent(),
    {
        Self {
            accounts: Default::default(),
            transactions: Default::default(),
            disputes: Default::default(),
        }
    }
}

} // verus!
