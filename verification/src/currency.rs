use vstd::prelude::*;

verus! {

/// An amount of money carried by one event, as a whole number of
/// ten-thousandths of a currency unit: four fractional digits, exactly.
pub type Amount = i64;

/// A balance of an account, in the same ten-thousandths. It is wider than
/// [`Amount`] so that no run of events can take a balance out of range.
pub type Balance = i128;

/// The number of fractional digits that every amount carries.
pub const NUM_DIGITS: u32 = 4;

/// How many ten-thousandths make one whole currency unit.
pub const UNITS_PER_WHOLE: Amount = 10_000;

/// The largest magnitude that one event's amount can have.
pub open spec fn amount_limit() -> int {
    0x8000_0000_0000_0000
}

/// Every amount lies within [`amount_limit`] of zero.
pub proof fn lemma_amount_within_limit(amount: Amount)
    ensures
        -amount_limit() <= amount <= amount_limit(),
{
}

/// The largest amount that does not exceed the balance: the balance
/// itself, unless it is out of the range of an amount. An amount that is
/// chosen up to this one is covered by the balance.
pub fn amount_up_to(balance: Balance) -> (amount: Amount)
    ensures
        amount == if balance > Amount::MAX {
            Amount::MAX as int
        } else if balance < Amount::MIN {
            Amount::MIN as int
        } else {
            balance as int
        },
        balance >= Amount::MIN ==> amount <= balance,
{
    if balance > Amount::MAX as Balance {
        Amount::MAX
    } else if balance < Amount::MIN as Balance {
        Amount::MIN
    } else {
        balance as Amount
    }
}

} // verus!
