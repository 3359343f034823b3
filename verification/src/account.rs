//! Per-identity record of token balances and posted collateral.
use crate::ids::{account_id_is_valid, valid_account_id};
use crate::store::{clone_amounts, find_index, keys_distinct, lemma_value_at, upsert, value_of};
use crate::FibreError;
use vstd::prelude::*;

verus! {

/// Per-identity record of spendable token balances and of collateral
/// locked against token identifiers.  Created lazily with every balance
/// at zero; a missing entry means a zero balance.
#[derive(Debug)]
pub struct Account {
    account_id: String,
    tokens: Vec<(String, u128)>,
    collaterals: Vec<(String, u128)>,
}

/// `post` is `pre` with `amount` more of token `t` in the spendable
/// balance and nothing else moved.
pub open spec fn deposited(pre: Account, post: Account, t: Seq<char>, amount: u128) -> bool {
    &&& post.id() == pre.id()
    &&& post.balance_at(t) == pre.balance_at(t) + amount
    &&& forall|u: Seq<char>| u != t ==> post.balance_at(u) == pre.balance_at(u)
    &&& forall|u: Seq<char>| post.collateral_at(u) == pre.collateral_at(u)
}

/// `post` is `pre` with `amount` less of token `t` in the spendable
/// balance and nothing else moved.
pub open spec fn withdrew(pre: Account, post: Account, t: Seq<char>, amount: u128) -> bool {
    &&& post.id() == pre.id()
    &&& post.balance_at(t) == pre.balance_at(t) - amount
    &&& forall|u: Seq<char>| u != t ==> post.balance_at(u) == pre.balance_at(u)
    &&& forall|u: Seq<char>| post.collateral_at(u) == pre.collateral_at(u)
}

/// `post` is `pre` with `amount` more collateral posted against token
/// `t` and nothing else moved.
pub open spec fn collateral_added(pre: Account, post: Account, t: Seq<char>, amount: u128) -> bool {
    &&& post.id() == pre.id()
    &&& post.collateral_at(t) == pre.collateral_at(t) + amount
    &&& forall|u: Seq<char>| u != t ==> post.collateral_at(u) == pre.collateral_at(u)
    &&& forall|u: Seq<char>| post.balance_at(u) == pre.balance_at(u)
}

/// `post` is `pre` with `amount` less collateral posted against token
/// `t` and nothing else moved.
pub open spec fn collateral_removed(
    pre: Account,
    post: Account,
    t: Seq<char>,
    amount: u128,
) -> bool {
    &&& post.id() == pre.id()
    &&& post.collateral_at(t) == pre.collateral_at(t) - amount
    &&& forall|u: Seq<char>| u != t ==> post.collateral_at(u) == pre.collateral_at(u)
    &&& forall|u: Seq<char>| post.balance_at(u) == pre.balance_at(u)
}

/// A freshly created account: the given identity and every balance zero.
pub open spec fn fresh_account(a: Account, id: Seq<char>) -> bool {
    &&& a.wf()
    &&& a.id() == id
    &&& forall|t: Seq<char>| a.balance_at(t) == 0
    &&& forall|t: Seq<char>| a.collateral_at(t) == 0
}

impl Account {
    /// Internal well-formedness: each balance table binds a token
    /// identifier at most once.
    pub closed spec fn wf(self) -> bool {
        keys_distinct(self.tokens@) && keys_distinct(self.collaterals@)
    }

    /// The account's identity.
    pub closed spec fn id(self) -> Seq<char> {
        self.account_id@
    }

    /// The spendable balance held for token `t`; zero when unset.
    pub closed spec fn balance_at(self, t: Seq<char>) -> u128 {
        match value_of(self.tokens@, t) {
            Some(v) => v,
            None => 0,
        }
    }

    /// The collateral posted against token `t`; zero when unset.
    pub closed spec fn collateral_at(self, t: Seq<char>) -> u128 {
        match value_of(self.collaterals@, t) {
            Some(v) => v,
            None => 0,
        }
    }

    /// A new account under `account_id`, every balance zero; rejected
    /// when the identifier is malformed.
    pub fn new(account_id: String) -> (r: Result<Account, FibreError>)
        ensures
            valid_account_id(account_id@) ==> r is Ok && fresh_account(r->Ok_0, account_id@),
            !valid_account_id(account_id@) ==> r == Err::<Account, FibreError>(
                FibreError::InvalidIdentity,
            ),
    {
        if !account_id_is_valid(account_id.as_str()) {
            return Err(FibreError::InvalidIdentity);
        }
        Ok(Account { account_id, tokens: Vec::new(), collaterals: Vec::new() })
    }

    /// The spendable balance for `token_id`; zero when never set.
    pub fn get_balance(&self, token_id: String) -> (r: u128)
        requires
            self.wf(),
        ensures
            r == self.balance_at(token_id@),
    {
        match find_index(&self.tokens, &token_id) {
            Some(i) => {
                proof {
                    lemma_value_at(self.tokens@, i as int, token_id@);
                }
                self.tokens[i].1
            },
            None => 0,
        }
    }

    /// Adds `amount` to the balance for `token_id`; fails when the sum
    /// leaves the unsigned range, and then changes nothing.
    pub fn deposit(&mut self, token_id: String, amount: u128) -> (r: Result<(), FibreError>)
        requires
            old(self).wf(),
        ensures
            final(self).wf(),
            old(self).balance_at(token_id@) + amount <= u128::MAX ==> r == Ok::<(), FibreError>(())
                && deposited(*old(self), *final(self), token_id@, amount),
            old(self).balance_at(token_id@) + amount > u128::MAX ==> r == Err::<(), FibreError>(
                FibreError::Overflow,
            ) && *final(self) == *old(self),
    {
        let balance = self.get_balance(token_id.clone());
        match balance.checked_add(amount) {
            Some(new_balance) => {
                upsert(&mut self.tokens, token_id, new_balance);
                Ok(())
            },
            None => Err(FibreError::Overflow),
        }
    }

    /// Takes `amount` from the balance for `token_id`; fails when more
    /// is asked than is held, and then changes nothing.
    pub fn withdraw(&mut self, token_id: String, amount: u128) -> (r: Result<(), FibreError>)
        requires
            old(self).wf(),
        ensures
            final(self).wf(),
            amount <= old(self).balance_at(token_id@) ==> r == Ok::<(), FibreError>(()) && withdrew(
                *old(self),
                *final(self),
                token_id@,
                amount,
            ),
            amount > old(self).balance_at(token_id@) ==> r == Err::<(), FibreError>(
                FibreError::InsufficientBalance,
            ) && *final(self) == *old(self),
    {
        let balance = self.get_balance(token_id.clone());
        match balance.checked_sub(amount) {
            Some(new_balance) => {
                upsert(&mut self.tokens, token_id, new_balance);
                Ok(())
            },
            None => Err(FibreError::InsufficientBalance),
        }
    }

    /// The collateral posted against `token_id`; zero when never set.
    pub fn get_collateral_balance(&self, token_id: String) -> (r: u128)
        requires
            self.wf(),
        ensures
            r == self.collateral_at(token_id@),
    {
        match find_index(&self.collaterals, &token_id) {
            Some(i) => {
                proof {
                    lemma_value_at(self.collaterals@, i as int, token_id@);
                }
                self.collaterals[i].1
            },
            None => 0,
        }
    }

    /// Posts `amount` more collateral against `token_id`; fails when the
    /// sum leaves the unsigned range, and then changes nothing.
    pub fn add_collateral(&mut self, token_id: String, amount: u128) -> (r: Result<(), FibreError>)
        requires
            old(self).wf(),
        ensures
            final(self).wf(),
            old(self).collateral_at(token_id@) + amount <= u128::MAX ==> r == Ok::<(), FibreError>(
                (),
            ) && collateral_added(*old(self), *final(self), token_id@, amount),
            old(self).collateral_at(token_id@) + amount > u128::MAX ==> r == Err::<(), FibreError>(
                FibreError::CollateralOverflow,
            ) && *final(self) == *old(self),
    {
        let balance = self.get_collateral_balance(token_id.clone());
        match balance.checked_add(amount) {
            Some(new_balance) => {
                upsert(&mut self.collaterals, token_id, new_balance);
                Ok(())
            },
            None => Err(FibreError::CollateralOverflow),
        }
    }

    /// Releases `amount` collateral posted against `token_id`; fails
    /// when more is asked than is posted, and then changes nothing.
    pub fn remove_collateral(&mut self, token_id: String, amount: u128) -> (r: Result<
        (),
        FibreError,
    >)
        requires
            old(self).wf(),
        ensures
            final(self).wf(),
            amount <= old(self).collateral_at(token_id@) ==> r == Ok::<(), FibreError>(())
                && collateral_removed(*old(self), *final(self), token_id@, amount),
            amount > old(self).collateral_at(token_id@) ==> r == Err::<(), FibreError>(
                FibreError::InsufficientCollateral,
            ) && *final(self) == *old(self),
    {
        let balance = self.get_collateral_balance(token_id.clone());
        match balance.checked_sub(amount) {
            Some(new_balance) => {
                upsert(&mut self.collaterals, token_id, new_balance);
                Ok(())
            },
            None => Err(FibreError::InsufficientCollateral),
        }
    }
}

impl Clone for Account {
    /// The copy carries the same identity and the same balances.
    fn clone(&self) -> (r: Self)
        ensures
            r.wf() == self.wf(),
            r.id() == self.id(),
            forall|t: Seq<char>| r.balance_at(t) == self.balance_at(t),
            forall|t: Seq<char>| r.collateral_at(t) == self.collateral_at(t),
    {
        Account {
            account_id: self.account_id.clone(),
            tokens: clone_amounts(&self.tokens),
            collaterals: clone_amounts(&self.collaterals),
        }
    }
}

/// Law: a deposit followed by a withdrawal of the same amount restores
/// every balance exactly.
pub proof fn lemma_deposit_withdraw_round_trip(
    a0: Account,
    a1: Account,
    a2: Account,
    t: Seq<char>,
    amount: u128,
)
    requires
        deposited(a0, a1, t, amount),
        withdrew(a1, a2, t, amount),
    ensures
        forall|u: Seq<char>| a2.balance_at(u) == a0.balance_at(u),
        forall|u: Seq<char>| a2.collateral_at(u) == a0.collateral_at(u),
        a2.id() == a0.id(),
{
}

/// Law: adding collateral and then removing the same amount restores
/// every collateral balance exactly.
pub proof fn lemma_collateral_round_trip(
    a0: Account,
    a1: Account,
    a2: Account,
    t: Seq<char>,
    amount: u128,
)
    requires
        collateral_added(a0, a1, t, amount),
        collateral_removed(a1, a2, t, amount),
    ensures
        forall|u: Seq<char>| a2.collateral_at(u) == a0.collateral_at(u),
        forall|u: Seq<char>| a2.balance_at(u) == a0.balance_at(u),
        a2.id() == a0.id(),
{
}

} // verus!
