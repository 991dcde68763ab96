use vstd::prelude::*;

use crate::balances;
use crate::types::{Account, Deposit, Withdrawal};

verus! {

/// Access to an account that a chargeback has locked: disputes over its
/// deposits can still be settled, but nothing can be deposited or
/// withdrawn.
pub struct LockedAccount<'a>(pub &'a mut Account);

/// Access to an account that is not locked: every operation is open.
pub struct UnlockedAccount<'a>(pub &'a mut Account);

/// Access to an account for the steps of a dispute and nothing else,
/// whether the account is locked or not.
pub struct BaseAccount<'a>(pub &'a mut Account);

/// A handle on one account.
pub trait WrapsAccount {
    /// The account as it is now.
    spec fn account(&self) -> Account;

    /// The account, to look at.
    fn get_account(&self) -> (account: &Account)
        ensures
            *account == self.account(),
    ;

    /// The account, to change: what is done to it is done to the account
    /// behind the handle.
    fn get_mut_account(&mut self) -> (account: &mut Account)
        ensures
            *account == old(self).account(),
            final(self).account() == *final(account),
    ;
}

/// What every handle on an account can do, locked or not: the steps of a
/// dispute.
pub trait BaseAccountFeatures: WrapsAccount {
    /// Moves the disputed deposit from the available to the held funds.
    fn modify_balances_for_dispute(&mut self, disputed_deposit: &Deposit)
        requires
            old(self).account()@.disputed(disputed_deposit.amount as int).representable(),
        ensures
            final(self).account()@ == old(self).account()@.disputed(disputed_deposit.amount as int),
    ;

    /// Moves the disputed deposit back from the held to the available
    /// funds.
    fn modify_balances_for_resolve(&mut self, disputed_deposit: &Deposit)
        requires
            old(self).account()@.resolved(disputed_deposit.amount as int).representable(),
        ensures
            final(self).account()@ == old(self).account()@.resolved(disputed_deposit.amount as int),
    ;

    /// Removes the disputed deposit from the held funds.
    fn modify_balances_for_chargeback(&mut self, disputed_deposit: &Deposit)
        requires
            old(self).account()@.charged_back(disputed_deposit.amount as int).representable(),
        ensures
            final(self).account()@ == old(self).account()@.charged_back(
                disputed_deposit.amount as int,
            ),
    ;

    /// The account, to look at.
    fn view(&self) -> (account: &Account)
        ensures
            *account == self.account(),
    ;
}

/// What only a handle on an account that is not locked can do.
pub trait UnlockedAccountFeatures: WrapsAccount {
    /// Adds the deposit to the available funds.
    fn modify_balances_for_deposit(&mut self, deposit: &Deposit)
        requires
            old(self).account()@.credited(deposit.amount as int).representable(),
        ensures
            final(self).account()@ == old(self).account()@.credited(deposit.amount as int),
    ;

    /// Takes the withdrawal from the available funds.
    fn modify_balances_for_withdrawal(&mut self, withdrawal: &Withdrawal)
        requires
            old(self).account()@.debited(withdrawal.amount as int).representable(),
        ensures
            final(self).account()@ == old(self).account()@.debited(withdrawal.amount as int),
    ;

    /// Locks the account.
    fn lock(&mut self)
        ensures
            final(self).account()@ == old(self).account()@.frozen(),
    ;
}

impl<'a> WrapsAccount for LockedAccount<'a> {
    open spec fn account(&self) -> Account {
        *self.0
    }

    #[inline]
    fn get_account(&self) -> (account: &Account) {
        &*self.0
    }

    #[inline]
    fn get_mut_account(&mut self) -> (account: &mut Account)
        ensures
            *final(final(self).0) == *final(old(self).0),
    {
        &mut *self.0
    }
}

impl<'a> WrapsAccount for UnlockedAccount<'a> {
    open spec fn account(&self) -> Account {
        *self.0
    }

    #[inline]
    fn get_account(&self) -> (account: &Account) {
        &*self.0
    }

    #[inline]
    fn get_mut_account(&mut self) -> (account: &mut Account)
        ensures
            *final(final(self).0) == *final(old(self).0),
    {
        &mut *self.0
    }
}

impl<'a> WrapsAccount for BaseAccount<'a> {
    open spec fn account(&self) -> Account {
        *self.0
    }

    #[inline]
    fn get_account(&self) -> (account: &Account) {
        &*self.0
    }

    #[inline]
    fn get_mut_account(&mut self) -> (account: &mut Account)
        ensures
            *final(final(self).0) == *final(old(self).0),
    {
        &mut *self.0
    }
}

impl<'a> BaseAccountFeatures for BaseAccount<'a> {
    fn modify_balances_for_dispute(&mut self, disputed_deposit: &Deposit)
        ensures
            *final(final(self).0) == *final(old(self).0),
    {
        balances::modify_balances_for_dispute(disputed_deposit, self.get_mut_account());
    }

    fn modify_balances_for_resolve(&mut self, disputed_deposit: &Deposit)
        ensures
            *final(final(self).0) == *final(old(self).0),
    {
        balances::modify_balances_for_resolve(disputed_deposit, self.get_mut_account());
    }

    fn modify_balances_for_chargeback(&mut self, disputed_deposit: &Deposit)
        ensures
            *final(final(self).0) == *final(old(self).0),
    {
        balances::modify_balances_for_chargeback(disputed_deposit, self.get_mut_account());
    }

    fn view(&self) -> (account: &Account) {
        self.get_account()
    }
}

impl<'a> BaseAccountFeatures for LockedAccount<'a> {
    fn modify_balances_for_dispute(&mut self, disputed_deposit: &Deposit)
        ensures
            *final(final(self).0) == *final(old(self).0),
    {
        balances::modify_balances_for_dispute(disputed_deposit, self.get_mut_account());
    }

    fn modify_balances_for_resolve(&mut self, disputed_deposit: &Deposit)
        ensures
            *final(final(self).0) == *final(old(self).0),
    {
        balances::modify_balances_for_resolve(disputed_deposit, self.get_mut_account());
    }

    fn modify_balances_for_chargeback(&mut self, disputed_deposit: &Deposit)
        ensures
            *final(final(self).0) == *final(old(self).0),
    {
        balances::modify_balances_for_chargeback(disputed_deposit, self.get_mut_account());
    }

    fn view(&self) -> (account: &Account) {
        self.get_account()
    }
}

impl<'a> BaseAccountFeatures for UnlockedAccount<'a> {
    fn modify_balances_for_dispute(&mut self, disputed_deposit: &Deposit)
        ensures
            *final(final(self).0) == *final(old(self).0),
    {
        balances::modify_balances_for_dispute(disputed_deposit, self.get_mut_account());
    }

    fn modify_balances_for_resolve(&mut self, disputed_deposit: &Deposit)
        ensures
            *final(final(self).0) == *final(old(self).0),
    {
        balances::modify_balances_for_resolve(disputed_deposit, self.get_mut_account());
    }

    fn modify_balances_for_chargeback(&mut self, disputed_deposit: &Deposit)
        ensures
            *final(final(self).0) == *final(old(self).0),
    {
        balances::modify_balances_for_chargeback(disputed_deposit, self.get_mut_account());
    }

    fn view(&self) -> (account: &Account) {
        self.get_account()
    }
}

impl<'a> UnlockedAccountFeatures for UnlockedAccount<'a> {
    fn modify_balances_for_deposit(&mut self, deposit: &Deposit)
        ensures
            *final(final(self).0) == *final(old(self).0),
    {
        balances::modify_balances_for_deposit(deposit, self.get_mut_account());
    }

    fn modify_balances_for_withdrawal(&mut self, withdrawal: &Withdrawal)
        ensures
            *final(final(self).0) == *final(old(self).0),
    {
        balances::modify_balances_for_withdrawal(withdrawal, self.get_mut_account());
    }

    fn lock(&mut self)
        ensures
            *final(final(self).0) == *final(old(self).0),
    {
        self.get_mut_account().locked = true;
    }
}

/// A handle on an account that says, by its variant, whether the account is
/// locked.
pub enum AccountAccess<'a> {
    Locked(LockedAccount<'a>),
    Unlocked(UnlockedAccount<'a>),
}

impl Account {
    /// A handle on the account: [`AccountAccess::Locked`] if and only if
    /// the account is locked. What is done through the handle is done to
    /// the account.
    pub fn access<'a>(&'a mut self) -> (access: AccountAccess<'a>)
        ensures
            access.account() == *old(self),
            access is Locked <==> old(self).locked,
            *final(self) == match access {
                AccountAccess::Locked(account) => *final(account.0),
                AccountAccess::Unlocked(account) => *final(account.0),
            },
    {
        if self.locked {
            AccountAccess::Locked(LockedAccount(self))
        } else {
            AccountAccess::Unlocked(UnlockedAccount(self))
        }
    }
}

impl<'a> AccountAccess<'a> {
    /// Gives up what only an unlocked account allows: the handle that
    /// comes back offers the steps of a dispute and nothing else.
    pub fn inner(self) -> (base: BaseAccount<'a>)
        ensures
            base.account() == self.account(),
            *final(base.0) == match self {
                AccountAccess::Locked(account) => *final(account.0),
                AccountAccess::Unlocked(account) => *final(account.0),
            },
    {
        match self {
            AccountAccess::Locked(account) => BaseAccount(account.0),
            AccountAccess::Unlocked(account) => BaseAccount(account.0),
        }
    }
}

impl<'a> WrapsAccount for AccountAccess<'a> {
    open spec fn account(&self) -> Account {
        match self {
            AccountAccess::Locked(account) => account.account(),
            AccountAccess::Unlocked(account) => account.account(),
        }
    }

    fn get_account(&self) -> (account: &Account) {
        match self {
            AccountAccess::Locked(account) => account.get_account(),
            AccountAccess::Unlocked(account) => account.get_account(),
        }
    }

    fn get_mut_account(&mut self) -> (account: &mut Account) {
        match self {
            AccountAccess::Locked(account) => account.get_mut_account(),
            AccountAccess::Unlocked(account) => account.get_mut_account(),
        }
    }
}

impl<'a> BaseAccountFeatures for AccountAccess<'a> {
    fn modify_balances_for_dispute(&mut self, disputed_deposit: &Deposit)
        ensures
            *final(self) is Locked <==> *old(self) is Locked,
            match (*old(self), *final(self)) {
                (AccountAccess::Locked(before), AccountAccess::Locked(after)) => {
                    *final(after.0) == *final(before.0)
                },
                (AccountAccess::Unlocked(before), AccountAccess::Unlocked(after)) => {
                    *final(after.0) == *final(before.0)
                },
                _ => false,
            },
    {
        match self {
            AccountAccess::Locked(account) => account.modify_balances_for_dispute(disputed_deposit),
            AccountAccess::Unlocked(account) => account.modify_balances_for_dispute(
                disputed_deposit,
            ),
        }
    }

    fn modify_balances_for_resolve(&mut self, disputed_deposit: &Deposit)
        ensures
            *final(self) is Locked <==> *old(self) is Locked,
            match (*old(self), *final(self)) {
                (AccountAccess::Locked(before), AccountAccess::Locked(after)) => {
                    *final(after.0) == *final(before.0)
                },
                (AccountAccess::Unlocked(before), AccountAccess::Unlocked(after)) => {
                    *final(after.0) == *final(before.0)
                },
                _ => false,
            },
    {
        match self {
            AccountAccess::Locked(account) => account.modify_balances_for_resolve(disputed_deposit),
            AccountAccess::Unlocked(account) => account.modify_balances_for_resolve(
                disputed_deposit,
            ),
        }
    }

    fn modify_balances_for_chargeback(&mut self, disputed_deposit: &Deposit)
        ensures
            *final(self) is Locked <==> *old(self) is Locked,
            match (*old(self), *final(self)) {
                (AccountAccess::Locked(before), AccountAccess::Locked(after)) => {
                    *final(after.0) == *final(before.0)
                },
                (AccountAccess::Unlocked(before), AccountAccess::Unlocked(after)) => {
                    *final(after.0) == *final(before.0)
                },
                _ => false,
            },
    {
        match self {
            AccountAccess::Locked(account) => account.modify_balances_for_chargeback(
                disputed_deposit,
            ),
            AccountAccess::Unlocked(account) => account.modify_balances_for_chargeback(
                disputed_deposit,
            ),
        }
    }

    fn view(&self) -> (account: &Account) {
        self.get_account()
    }
}

} // verus!
