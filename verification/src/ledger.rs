use crate::address::Address;
use crate::errors::VaultError;
use vstd::prelude::*;

verus! {

/// A custodial account: the identity controlling it, the bump disambiguator
/// recorded when its address was derived, and its recorded balance in native
/// currency units.
pub struct Vault {
    pub owner: Address,
    pub bump: u8,
    pub balance: u64,
}

/// The per-owner credit counter bound to one account: the owner's identity,
/// the address of the account the credits draw on, the bump recorded when the
/// record's own address was derived, and the counter itself.
pub struct CreditRecord {
    pub owner: Address,
    pub linked_account: Address,
    pub bump: u8,
    pub credits: u64,
}

impl Vault {
    /// Adds `amount` to the balance with checked arithmetic; wraparound is
    /// refused before anything changes.
    pub fn credit(&mut self, amount: u64) -> (r: Result<(), VaultError>)
        requires
            amount > 0,
        ensures
            match r {
                Ok(_) => {
                    &&& old(self).balance + amount <= u64::MAX
                    &&& final(self).balance == old(self).balance + amount
                    &&& final(self).owner@ == old(self).owner@
                    &&& final(self).bump == old(self).bump
                },
                Err(e) => {
                    &&& e == VaultError::MathOverflow
                    &&& old(self).balance + amount > u64::MAX
                    &&& *final(self) == *old(self)
                },
            },
    {
        match self.balance.checked_add(amount) {
            Some(b) => {
                self.balance = b;
                Ok(())
            },
            None => Err(VaultError::MathOverflow),
        }
    }

    /// Subtracts `amount` from the balance. The shortfall test compares the
    /// pre-mutation balance explicitly; it is never inferred from a wrapped
    /// subtraction result.
    pub fn debit(&mut self, amount: u64) -> (r: Result<(), VaultError>)
        requires
            amount > 0,
        ensures
            match r {
                Ok(_) => {
                    &&& old(self).balance >= amount
                    &&& final(self).balance == old(self).balance - amount
                    &&& final(self).owner@ == old(self).owner@
                    &&& final(self).bump == old(self).bump
                },
                Err(e) => {
                    &&& e == VaultError::InsufficientFunds
                    &&& old(self).balance < amount
                    &&& *final(self) == *old(self)
                },
            },
    {
        if self.balance < amount {
            return Err(VaultError::InsufficientFunds);
        }
        self.balance = self.balance - amount;
        Ok(())
    }
}

impl CreditRecord {
    /// Adds `amount` to the credit counter with checked arithmetic, and
    /// refuses a counter that would exceed the linked account's recorded
    /// balance after the mutation.
    pub fn add_credits(&mut self, amount: u64, account_balance: u64) -> (r: Result<(), VaultError>)
        requires
            amount > 0,
        ensures
            match r {
                Ok(_) => {
                    &&& old(self).credits + amount <= account_balance
                    &&& final(self).credits == old(self).credits + amount
                    &&& final(self).owner@ == old(self).owner@
                    &&& final(self).linked_account@ == old(self).linked_account@
                    &&& final(self).bump == old(self).bump
                },
                Err(e) => {
                    &&& *final(self) == *old(self)
                    &&& if old(self).credits + amount > u64::MAX {
                        e == VaultError::MathOverflow
                    } else {
                        e == VaultError::InsufficientFunds && old(self).credits + amount
                            > account_balance
                    }
                },
            },
    {
        match self.credits.checked_add(amount) {
            Some(c) => {
                if c > account_balance {
                    Err(VaultError::InsufficientFunds)
                } else {
                    self.credits = c;
                    Ok(())
                }
            },
            None => Err(VaultError::MathOverflow),
        }
    }

    /// Subtracts `amount` from the credit counter. The shortfall test
    /// compares the pre-mutation counter explicitly; it is never inferred
    /// from a wrapped subtraction result.
    pub fn sub_credits(&mut self, amount: u64) -> (r: Result<(), VaultError>)
        requires
            amount > 0,
        ensures
            match r {
                Ok(_) => {
                    &&& old(self).credits >= amount
                    &&& final(self).credits == old(self).credits - amount
                    &&& final(self).owner@ == old(self).owner@
                    &&& final(self).linked_account@ == old(self).linked_account@
                    &&& final(self).bump == old(self).bump
                },
                Err(e) => {
                    &&& e == VaultError::InsufficientCredits
                    &&& old(self).credits < amount
                    &&& *final(self) == *old(self)
                },
            },
    {
        if self.credits < amount {
            return Err(VaultError::InsufficientCredits);
        }
        self.credits = self.credits - amount;
        Ok(())
    }
}

} // verus!
