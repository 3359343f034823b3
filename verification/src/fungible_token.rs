//! The token-issuing service's own ledger: per-holder balances and the
//! total supply, moved by mint and burn.  This is the service the
//! registry's mint workflow instructs; its account registration and
//! storage accounting stay with the host and are not modelled here.
use crate::store::{find_index, keys_distinct, lemma_value_at, upsert, value_of};
use crate::FibreError;
use vstd::prelude::*;

verus! {

/// Presentation fields of a fungible token.  Carried, not interpreted.
pub struct TokenMetadata {
    pub name: String,
    pub symbol: String,
    pub icon: Option<String>,
    pub decimals: u8,
}

/// The fungible-token service's ledger: what each holder owns and how
/// much supply is issued in all.
pub struct Contract {
    balances: Vec<(String, u128)>,
    total_supply: u128,
    metadata: TokenMetadata,
}

impl Contract {
    /// Internal well-formedness: the balance table binds a holder at
    /// most once.
    pub closed spec fn wf(self) -> bool {
        keys_distinct(self.balances@)
    }

    /// The balance held by `a`; zero when unset.
    pub closed spec fn balance_at(self, a: Seq<char>) -> u128 {
        match value_of(self.balances@, a) {
            Some(v) => v,
            None => 0,
        }
    }

    /// The aggregate issued supply.
    pub closed spec fn total(self) -> u128 {
        self.total_supply
    }

    /// The presentation fields.
    pub closed spec fn meta(self) -> TokenMetadata {
        self.metadata
    }

    /// The presentation fields, as given at creation.
    pub fn get_metadata(&self) -> (r: &TokenMetadata)
        ensures
            *r == self.meta(),
    {
        &self.metadata
    }

    /// A new token service with the given presentation fields, no
    /// holders and no issued supply.
    pub fn new(name: String, symbol: String, icon: Option<String>, decimals: u8) -> (r: Contract)
        ensures
            r.wf(),
            r.total() == 0,
            forall|a: Seq<char>| r.balance_at(a) == 0,
            r.meta().name@ == name@,
            r.meta().symbol@ == symbol@,
            r.meta().decimals == decimals,
    {
        Contract {
            balances: Vec::new(),
            total_supply: 0,
            metadata: TokenMetadata { name, symbol, icon, decimals },
        }
    }

    /// The balance held by `account_id`; zero when never credited.
    pub fn ft_balance_of(&self, account_id: String) -> (r: u128)
        requires
            self.wf(),
        ensures
            r == self.balance_at(account_id@),
    {
        match find_index(&self.balances, &account_id) {
            Some(i) => {
                proof {
                    lemma_value_at(self.balances@, i as int, account_id@);
                }
                self.balances[i].1
            },
            None => 0,
        }
    }

    /// The aggregate issued supply.
    pub fn ft_total_supply(&self) -> (r: u128)
        ensures
            r == self.total(),
    {
        self.total_supply
    }

    /// Issues `amount` to `account_id`: the holder's balance and the
    /// total supply each grow by `amount`.  Fails when either sum
    /// leaves the unsigned range, and then changes nothing.
    pub fn ft_mint(&mut self, account_id: String, amount: u128) -> (r: Result<(), FibreError>)
        requires
            old(self).wf(),
        ensures
            final(self).wf(),
            old(self).balance_at(account_id@) + amount <= u128::MAX && old(self).total() + amount
                <= u128::MAX ==> r == Ok::<(), FibreError>(()) && ({
                &&& final(self).balance_at(account_id@) == old(self).balance_at(account_id@)
                    + amount
                &&& forall|a: Seq<char>|
                    a != account_id@ ==> final(self).balance_at(a) == old(self).balance_at(a)
                &&& final(self).total() == old(self).total() + amount
                &&& final(self).meta() == old(self).meta()
            }),
            !(old(self).balance_at(account_id@) + amount <= u128::MAX && old(self).total() + amount
                <= u128::MAX) ==> r == Err::<(), FibreError>(FibreError::Overflow) && *final(self)
                == *old(self),
    {
        let balance = self.ft_balance_of(account_id.clone());
        let new_balance = match balance.checked_add(amount) {
            Some(b) => b,
            None => {
                return Err(FibreError::Overflow);
            },
        };
        let new_total = match self.total_supply.checked_add(amount) {
            Some(t) => t,
            None => {
                return Err(FibreError::Overflow);
            },
        };
        upsert(&mut self.balances, account_id, new_balance);
        self.total_supply = new_total;
        Ok(())
    }

    /// Burns `amount` from `account_id`: the holder's balance and the
    /// total supply each shrink by `amount`.  Fails when the holder
    /// owns less than `amount`, or when the total supply does, and
    /// then changes nothing.
    pub fn ft_burn(&mut self, account_id: String, amount: u128) -> (r: Result<(), FibreError>)
        requires
            old(self).wf(),
        ensures
            final(self).wf(),
            amount > old(self).balance_at(account_id@) ==> r == Err::<(), FibreError>(
                FibreError::InsufficientBalance,
            ) && *final(self) == *old(self),
            amount <= old(self).balance_at(account_id@) && amount > old(self).total() ==> r
                == Err::<(), FibreError>(FibreError::Underflow) && *final(self) == *old(self),
            amount <= old(self).balance_at(account_id@) && amount <= old(self).total() ==> r
                == Ok::<(), FibreError>(()) && ({
                &&& final(self).balance_at(account_id@) == old(self).balance_at(account_id@)
                    - amount
                &&& forall|a: Seq<char>|
                    a != account_id@ ==> final(self).balance_at(a) == old(self).balance_at(a)
                &&& final(self).total() == old(self).total() - amount
                &&& final(self).meta() == old(self).meta()
            }),
    {
        let balance = self.ft_balance_of(account_id.clone());
        let new_balance = match balance.checked_sub(amount) {
            Some(b) => b,
            None => {
                return Err(FibreError::InsufficientBalance);
            },
        };
        let new_total = match self.total_supply.checked_sub(amount) {
            Some(t) => t,
            None => {
                return Err(FibreError::Underflow);
            },
        };
        upsert(&mut self.balances, account_id, new_balance);
        self.total_supply = new_total;
        Ok(())
    }
}

} // verus!
