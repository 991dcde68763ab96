use vstd::prelude::*;

pub mod account;
pub mod balances;
pub mod conversions;
pub mod currency;
pub mod handlers;
pub mod laws;
pub mod rand;
pub mod record;
pub mod state;
pub mod test_utils;
pub mod traits;
pub mod types;
pub mod validate;

use crate::state::State;
use crate::types::{Account, AccountView, Balance, ClientId, OutputRecord, TransactionRecord};

verus! {

broadcast use vstd::std_specs::hash::group_hash_axioms;

/// Determine which worker should apply the event: the client's id modulo
/// the number of workers. Clients are independent of each other, so it is
/// enough that all events of one client go to one worker, which then sees
/// them in the order in which they arrived.
pub fn assign_tx_to_thread(tx: TransactionRecord, num_threads: usize) -> (thread_id: usize)
    requires
        num_threads > 0,
    ensures
        thread_id == (tx.client_id as int) % (num_threads as int),
        thread_id < num_threads,
{
    let client: usize = tx.client_id as usize;
    client % num_threads
}

/// Calls `num_cpus::get`, which gives the number of logical cores that are
/// available to this process. That number depends on the machine; it is
/// always at least 1.
#[verifier::external_body]
fn logical_cores() -> (cores: usize)
    ensures
        cores >= 1,
{
    num_cpus::get()
}

/// The number of workers that parse the input: the number asked for, and
/// half of the machine's logical cores where none was asked for.
pub fn deserialize_workers(num_workers: Option<usize>, logical_cores: usize) -> (workers: usize)
    ensures
        workers == match num_workers {
            Some(asked) => asked as int,
            None => logical_cores as int / 2,
        },
{
    match num_workers {
        Some(asked) => asked,
        None => logical_cores / 2,
    }
}

/// The number of workers that parse the input on this machine: what
/// [`deserialize_workers`] gives for the number asked for and the logical
/// cores of the machine. The number is handed to the stage that reads the
/// input; nothing is set up for the process as a whole.
pub fn configure_deserialize_workers(num_workers: Option<usize>) -> (workers: usize)
    ensures
        match num_workers {
            Some(asked) => workers == asked,
            None => exists|cores: usize| cores >= 1 && workers == #[trigger] (cores / 2),
        },
{
    match num_workers {
        Some(asked) => asked,
        // Default to half of the available logical cores
        None => deserialize_workers(None, logical_cores()),
    }
}

/// Whether the rows report the accounts: one row for each client that has
/// an account, with the balances and the lock of that account and the sum
/// of the two balances as the total, and no other row.
pub open spec fn reports_accounts(
    records: Seq<OutputRecord>,
    accounts: Map<ClientId, AccountView>,
) -> bool {
    &&& records.len() == accounts.len()
    &&& forall|i: int|
        0 <= i < records.len() ==> accounts.contains_key(#[trigger] records[i].client)
            && records[i] == OutputRecord::spec_new(
            records[i].client,
            accounts[records[i].client],
        )
    &&& forall|i: int, j: int|
        0 <= i < j < records.len() ==> #[trigger] records[i].client != #[trigger] records[j].client
    &&& forall|client_id: ClientId| #[trigger]
        accounts.contains_key(client_id) ==> exists|i: int|
            0 <= i < records.len() && #[trigger] records[i].client == client_id
}

/// Whether the first `count` rows are those of the first `count` accounts
/// that are walked.
spec fn follows_walk(
    records: Seq<OutputRecord>,
    walk: Seq<(&ClientId, &Account)>,
    count: int,
) -> bool {
    &&& records.len() == count
    &&& forall|i: int|
        0 <= i < count ==> #[trigger] records[i] == OutputRecord::spec_new(
            *walk[i].0,
            (*walk[i].1)@,
        )
}

/// Rows that follow a whole walk over the accounts report the accounts.
proof fn lemma_walk_reports(
    records: Seq<OutputRecord>,
    walk: Seq<(&ClientId, &Account)>,
    entries: Map<ClientId, Account>,
    accounts: Map<ClientId, AccountView>,
)
    requires
        follows_walk(records, walk, walk.len() as int),
        walk.unref().to_set() == entries.kv_pairs(),
        walk.no_duplicates(),
        walk.len() == entries.len(),
        accounts.dom() == entries.dom(),
        forall|client_id: ClientId| #[trigger]
            entries.contains_key(client_id) ==> accounts[client_id] == entries[client_id]@,
    ensures
        reports_accounts(records, accounts),
{
    let plain = walk.unref();
    assert forall|i: int| 0 <= i < walk.len() implies entries.contains_key(*walk[i].0)
        && entries[*walk[i].0] == *walk[i].1 by {
        assert(plain[i] == (*walk[i].0, *walk[i].1));
        assert(plain.to_set().contains(plain[i]));
        assert(entries.kv_pairs().contains(plain[i]));
    }
    assert forall|i: int, j: int| 0 <= i < j < records.len() implies #[trigger] records[i].client
        != #[trigger] records[j].client by {
        if *walk[i].0 == *walk[j].0 {
            assert(*walk[i].1 == *walk[j].1);
            assert(walk[i] == walk[j]);
        }
    }
    assert forall|client_id: ClientId| #[trigger] accounts.contains_key(client_id) implies exists|
        i: int,
    |
        0 <= i < records.len() && #[trigger] records[i].client == client_id by {
        let pair = (client_id, entries[client_id]);
        assert(entries.kv_pairs().contains(pair));
        assert(plain.to_set().contains(pair));
        assert(plain.contains(pair));
        let i = choose|i: int| 0 <= i < plain.len() && plain[i] == pair;
        assert(records[i].client == client_id);
    }
    assert(accounts.len() == entries.len());
}

/// The rows of the final report, one for each account, in no particular
/// order.
pub fn output_records(state: &State) -> (records: Vec<OutputRecord>)
    requires
        state@.well_formed(),
    ensures
        reports_accounts(records@, state@.accounts),
{
    let mut records: Vec<OutputRecord> = Vec::new();
    proof {
        state@.lemma_allowance_within_limit();
        state.accounts.lemma_view_of_entries();
        assert(state.accounts.entries().len() == 0 ==> reports_accounts(
            records@,
            state@.accounts,
        )) by {
            if state.accounts.entries().len() == 0 {
                state.accounts.lemma_entries_finite();
                state.accounts.entries().dom().lemma_len0_is_empty();
                assert(state@.accounts.dom() =~= Set::empty());
            }
        }
    }
    for entry in iter: state.accounts.iter()
        invariant
            iter.seq().unref().to_set() == state.accounts.entries().kv_pairs(),
            iter.seq().no_duplicates(),
            iter.seq().len() == state.accounts.entries().len(),
            state@.well_formed(),
            state@.allowance() <= state::StateView::allowance_limit(),
            state::StateView::allowance_limit() + currency::amount_limit() <= Balance::MAX,
            state@.accounts.dom() == state.accounts.entries().dom(),
            forall|client_id: ClientId| #[trigger]
                state.accounts.entries().contains_key(client_id) ==> state@.accounts[client_id]
                    == state.accounts.entries()[client_id]@,
            follows_walk(records@, iter.seq(), iter.index()),
            iter.index() == iter.seq().len() ==> reports_accounts(records@, state@.accounts),
    {
        proof {
            let plain = iter.seq().unref();
            let i = iter.index();
            assert(plain[i] == (*entry.0, *entry.1));
            assert(plain.to_set().contains(plain[i]));
            assert(state.accounts.entries().contains_key(*entry.0));
            assert(state@.accounts.contains_key(*entry.0));
            assert(state@.within_allowance(state@.accounts[*entry.0]));
        }
        let record = OutputRecord::new(*entry.0, entry.1);
        records.push(record);
        proof {
            assert(iter.index() + 1 == iter.seq().len() ==> reports_accounts(
                records@,
                state@.accounts,
            )) by {
                if iter.index() + 1 == iter.seq().len() {
                    lemma_walk_reports(
                        records@,
                        iter.seq(),
                        state.accounts.entries(),
                        state@.accounts,
                    );
                }
            }
        }
    }
    records
}

} // verus!
