use vstd::prelude::*;

use crate::handlers::{handle_tx_batch, refusals, replayed};
use crate::state::State;
use crate::types::{refusal, TransactionError, TransactionRecord};

verus! {

/// Handles the events in their order, starting from the given ledger, and
/// gives back the ledger that they leave and the errors that came up, in
/// the order of the events. An event that is refused does not stop the
/// run.
pub fn run_test_scenario(initial_state: State, transactions: Vec<TransactionRecord>) -> (run: (
    State,
    Vec<TransactionError>,
))
    requires
        initial_state@.well_formed(),
    ensures
        run.0@ == replayed(initial_state@, transactions@),
        run.0@.well_formed(),
        run.1@.len() == refusals(initial_state@, transactions@).len(),
        forall|i: int|
            0 <= i < run.1@.len() ==> refusal::<()>(#[trigger] run.1@[i]) == refusals(
                initial_state@,
                transactions@,
            )[i],
{
    let mut state = initial_state;
    let actual_errors = handle_tx_batch(transactions, &mut state);
    (state, actual_errors)
}

} // verus!
