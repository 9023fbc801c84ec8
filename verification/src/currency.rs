//! The native currency as the exchanges see it: free balances that can be
//! read, and value that can be moved between two accounts.

use crate::table::Table;
use crate::types::{AccountId, Balance, Error};
use vstd::prelude::*;

verus! {

/// Whether a transfer may leave its source without the minimum balance that
/// keeps an account alive.
#[derive(Clone, Copy, Debug, PartialEq, Eq, Structural)]
pub enum ExistenceRequirement {
    /// The source must keep at least the minimum.
    KeepAlive,
    /// The source may be drained.
    AllowDeath,
}

/// A transfer of currency that is to be made.
#[derive(Clone, Copy, Debug, PartialEq, Eq, Structural)]
pub struct Payment {
    pub source: AccountId,
    pub dest: AccountId,
    pub value: Balance,
    pub requirement: ExistenceRequirement,
}

/// What `who`, who held `held`, holds once the payment is made.
pub open spec fn after_payment(held: Balance, payment: Payment, who: AccountId) -> int {
    held - (if who == payment.source {
        payment.value as int
    } else {
        0
    }) + (if who == payment.dest {
        payment.value as int
    } else {
        0
    })
}

/// The native currency of the chain.
///
/// Whether a transfer goes through is decided by the currency alone and can
/// be asked beforehand; a transfer that goes through moves exactly its value,
/// and one that does not changes nothing.
pub trait Currency: Sized {
    /// The free balance of `who`.
    spec fn free(&self, who: AccountId) -> Balance;

    /// Whether the payment would go through, and why not.
    spec fn transfer_check(&self, payment: Payment) -> Result<(), Error>;

    /// The free balance of `who`.
    fn free_balance(&self, who: &AccountId) -> (amount: Balance)
        ensures
            amount == self.free(*who),
    ;

    /// Whether the payment would go through.
    fn can_transfer(&self, payment: &Payment) -> (r: Result<(), Error>)
        ensures
            r == self.transfer_check(*payment),
    ;

    /// Moves `value` from `source` to `dest`.
    fn transfer(
        &mut self,
        source: &AccountId,
        dest: &AccountId,
        value: Balance,
        existence_requirement: ExistenceRequirement,
    ) -> (r: Result<(), Error>)
        ensures
            r == old(self).transfer_check(
                (Payment { source: *source, dest: *dest, value, requirement: existence_requirement }),
            ),
            r is Ok ==> forall|who: AccountId| #[trigger]
                final(self).free(who) == after_payment(
                    old(self).free(who),
                    (Payment {
                        source: *source,
                        dest: *dest,
                        value,
                        requirement: existence_requirement,
                    }),
                    who,
                ),
            r is Err ==> *final(self) == *old(self),
    ;
}

/// `after` is `before` with the payment made: the value has left the source,
/// has reached the destination, and no other balance has changed.
pub open spec fn paid<C: Currency>(before: C, after: C, payment: Payment) -> bool {
    forall|who: AccountId| #[trigger] after.free(who) == after_payment(before.free(who), payment, who)
}

/// Free balances kept in memory, with a minimum balance below which a
/// transfer that must keep its source alive is refused.
pub struct Balances {
    free: Table<AccountId, Balance>,
    existential_deposit: Balance,
}

impl Balances {
    /// The minimum balance of a live account.
    pub closed spec fn minimum(&self) -> Balance {
        self.existential_deposit
    }

    /// The rule by which these balances accept or refuse a payment. One of
    /// nothing, or from an account to itself, goes through; any other needs
    /// to be covered, to leave the minimum where the source must stay alive,
    /// and to fit the destination.
    pub open spec fn rule(
        source_free: Balance,
        dest_free: Balance,
        minimum: Balance,
        payment: Payment,
    ) -> Result<(), Error> {
        if payment.value == 0 || payment.source == payment.dest {
            Ok(())
        } else if source_free < payment.value {
            Err(Error::InsufficientBalance)
        } else if payment.requirement == ExistenceRequirement::KeepAlive && source_free
            - payment.value < minimum {
            Err(Error::KeepAlive)
        } else if dest_free + payment.value > Balance::MAX {
            Err(Error::Overflow)
        } else {
            Ok(())
        }
    }

    /// Balances that are all zero, with the given minimum.
    pub fn new(existential_deposit: Balance) -> (balances: Self)
        ensures
            balances.minimum() == existential_deposit,
            forall|who: AccountId| #[trigger] balances.free(who) == 0,
    {
        Balances { free: Table::new(0), existential_deposit }
    }

    /// Sets the free balance of `who`.
    pub fn make_free_balance_be(&mut self, who: &AccountId, balance: Balance)
        ensures
            final(self).minimum() == old(self).minimum(),
            forall|other: AccountId| #[trigger]
                final(self).free(other) == if other == *who {
                    balance
                } else {
                    old(self).free(other)
                },
    {
        self.free.set(*who, balance);
    }
}

impl Currency for Balances {
    closed spec fn free(&self, who: AccountId) -> Balance {
        self.free@[who]
    }

    open spec fn transfer_check(&self, payment: Payment) -> Result<(), Error> {
        Balances::rule(self.free(payment.source), self.free(payment.dest), self.minimum(), payment)
    }

    fn free_balance(&self, who: &AccountId) -> (amount: Balance) {
        self.free.get(who)
    }

    fn can_transfer(&self, payment: &Payment) -> (r: Result<(), Error>) {
        if payment.value == 0 || payment.source == payment.dest {
            return Ok(());
        }
        let source_free: Balance = self.free.get(&payment.source);
        if source_free < payment.value {
            return Err(Error::InsufficientBalance);
        }
        let keep = match payment.requirement {
            ExistenceRequirement::KeepAlive => true,
            ExistenceRequirement::AllowDeath => false,
        };
        if keep && source_free - payment.value < self.existential_deposit {
            return Err(Error::KeepAlive);
        }
        if self.free.get(&payment.dest) > Balance::MAX - payment.value {
            return Err(Error::Overflow);
        }
        Ok(())
    }

    fn transfer(
        &mut self,
        source: &AccountId,
        dest: &AccountId,
        value: Balance,
        existence_requirement: ExistenceRequirement,
    ) -> (r: Result<(), Error>) {
        let payment = Payment {
            source: *source,
            dest: *dest,
            value,
            requirement: existence_requirement,
        };
        match self.can_transfer(&payment) {
            Err(e) => {
                return Err(e);
            },
            Ok(_) => {},
        }
        if value == 0 || *source == *dest {
            return Ok(());
        }
        let source_free: Balance = self.free.get(source);
        self.free.set(*source, source_free - value);
        let dest_free: Balance = self.free.get(dest);
        self.free.set(*dest, dest_free + value);
        Ok(())
    }
}

} // verus!
