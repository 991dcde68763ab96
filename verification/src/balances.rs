use vstd::prelude::*;

use crate::types::{Account, Balance, Deposit, Withdrawal};

verus! {

/// Adds the deposit to the available funds.
pub fn modify_balances_for_deposit(deposit: &Deposit, account: &mut Account)
    requires
        old(account)@.credited(deposit.amount as int).representable(),
    ensures
        final(account)@ == old(account)@.credited(deposit.amount as int),
{
    account.available = account.available + deposit.amount as Balance;
}

/// Takes the withdrawal from the available funds.
pub fn modify_balances_for_withdrawal(withdrawal: &Withdrawal, account: &mut Account)
    requires
        old(account)@.debited(withdrawal.amount as int).representable(),
    ensures
        final(account)@ == old(account)@.debited(withdrawal.amount as int),
{
    account.available = account.available - withdrawal.amount as Balance;
}

/// Moves the disputed deposit from the available funds to the held funds.
pub fn modify_balances_for_dispute(disputed_deposit: &Deposit, account: &mut Account)
    requires
        old(account)@.disputed(disputed_deposit.amount as int).representable(),
    ensures
        final(account)@ == old(account)@.disputed(disputed_deposit.amount as int),
{
    account.available = account.available - disputed_deposit.amount as Balance;
    account.held = account.held + disputed_deposit.amount as Balance;
}

/// Moves the disputed deposit back from the held funds to the available
/// funds.
pub fn modify_balances_for_resolve(disputed_deposit: &Deposit, account: &mut Account)
    requires
        old(account)@.resolved(disputed_deposit.amount as int).representable(),
    ensures
        final(account)@ == old(account)@.resolved(disputed_deposit.amount as int),
{
    account.available = account.available + disputed_deposit.amount as Balance;
    account.held = account.held - disputed_deposit.amount as Balance;
}

/// Removes the disputed deposit from the held funds.
pub fn modify_balances_for_chargeback(disputed_deposit: &Deposit, account: &mut Account)
    requires
        old(account)@.charged_back(disputed_deposit.amount as int).representable(),
    ensures
        final(account)@ == old(account)@.charged_back(disputed_deposit.amount as int),
{
    account.held = account.held - disputed_deposit.amount as Balance;
}

} // verus!
