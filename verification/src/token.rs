//! Per-token record of issued supply and per-holder share accounting.
use crate::store::{clone_amounts, find_index, keys_distinct, lemma_value_at, upsert, value_of};
use crate::FibreError;
use vstd::prelude::*;

verus! {

/// Per-token record: the aggregate issued amount and each holder's
/// accumulated mint share.  The total is tracked independently of the
/// shares; nothing here reconciles one against the sum of the other.
#[derive(Debug)]
pub struct Token {
    token_id: String,
    amount: u128,
    shares: Vec<(String, u128)>,
}

/// `post` is `pre` with `amount` more share recorded for `holder` and
/// nothing else moved.
pub open spec fn share_incremented(pre: Token, post: Token, holder: Seq<char>, amount: u128) -> bool {
    &&& post.id() == pre.id()
    &&& post.total() == pre.total()
    &&& post.share_at(holder) == pre.share_at(holder) + amount
    &&& forall|h: Seq<char>| h != holder ==> post.share_at(h) == pre.share_at(h)
}

/// A freshly created token record: the given identifier, no issued
/// amount, no shares.
pub open spec fn fresh_token(t: Token, id: Seq<char>) -> bool {
    &&& t.wf()
    &&& t.id() == id
    &&& t.total() == 0
    &&& forall|h: Seq<char>| t.share_at(h) == 0
}

impl Token {
    /// Internal well-formedness: the share table binds a holder at most
    /// once.
    pub closed spec fn wf(self) -> bool {
        keys_distinct(self.shares@)
    }

    /// The token's identifier.
    pub closed spec fn id(self) -> Seq<char> {
        self.token_id@
    }

    /// The aggregate issued amount.
    pub closed spec fn total(self) -> u128 {
        self.amount
    }

    /// The share accumulated by `holder`; zero when unset.
    pub closed spec fn share_at(self, holder: Seq<char>) -> u128 {
        match value_of(self.shares@, holder) {
            Some(v) => v,
            None => 0,
        }
    }

    /// A new token record under `token_id`, with no issued amount and no
    /// shares.
    pub fn new(token_id: String) -> (r: Token)
        ensures
            fresh_token(r, token_id@),
    {
        Token { token_id, amount: 0, shares: Vec::new() }
    }

    /// The share accumulated by `account_id`; zero when never set.
    pub fn get_total_shares(&self, account_id: String) -> (r: u128)
        requires
            self.wf(),
        ensures
            r == self.share_at(account_id@),
    {
        match find_index(&self.shares, &account_id) {
            Some(i) => {
                proof {
                    lemma_value_at(self.shares@, i as int, account_id@);
                }
                self.shares[i].1
            },
            None => 0,
        }
    }

    /// Adds `amount` to the share recorded for `account_id`; fails when
    /// the sum leaves the unsigned range, and then changes nothing.
    pub fn internal_increment_shares(&mut self, account_id: String, amount: u128) -> (r: Result<
        (),
        FibreError,
    >)
        requires
            old(self).wf(),
        ensures
            final(self).wf(),
            old(self).share_at(account_id@) + amount <= u128::MAX ==> r == Ok::<(), FibreError>(())
                && share_incremented(*old(self), *final(self), account_id@, amount),
            old(self).share_at(account_id@) + amount > u128::MAX ==> r == Err::<(), FibreError>(
                FibreError::ShareOverflow,
            ) && *final(self) == *old(self),
    {
        let balance = self.get_total_shares(account_id.clone());
        match balance.checked_add(amount) {
            Some(new_balance) => {
                upsert(&mut self.shares, account_id, new_balance);
                Ok(())
            },
            None => Err(FibreError::ShareOverflow),
        }
    }

    /// Records a confirmed mint of `amount` for `account_id` as share;
    /// fails when the sum leaves the unsigned range, and then changes
    /// nothing.
    pub fn mint(&mut self, account_id: String, amount: u128) -> (r: Result<(), FibreError>)
        requires
            old(self).wf(),
        ensures
            final(self).wf(),
            old(self).share_at(account_id@) + amount <= u128::MAX ==> r == Ok::<(), FibreError>(())
                && share_incremented(*old(self), *final(self), account_id@, amount),
            old(self).share_at(account_id@) + amount > u128::MAX ==> r == Err::<(), FibreError>(
                FibreError::ShareOverflow,
            ) && *final(self) == *old(self),
    {
        self.internal_increment_shares(account_id, amount)
    }
}

impl Clone for Token {
    /// The copy carries the same identifier, total and shares.
    fn clone(&self) -> (r: Self)
        ensures
            r.wf() == self.wf(),
            r.id() == self.id(),
            r.total() == self.total(),
            forall|h: Seq<char>| r.share_at(h) == self.share_at(h),
    {
        Token {
            token_id: self.token_id.clone(),
            amount: self.amount,
            shares: clone_amounts(&self.shares),
        }
    }
}

/// Law: two successive share increments for the same holder accumulate
/// additively.
pub proof fn lemma_shares_accumulate(
    t0: Token,
    t1: Token,
    t2: Token,
    holder: Seq<char>,
    first: u128,
    second: u128,
)
    requires
        share_incremented(t0, t1, holder, first),
        share_incremented(t1, t2, holder, second),
    ensures
        t2.share_at(holder) == t0.share_at(holder) + first + second,
        forall|h: Seq<char>| h != holder ==> t2.share_at(h) == t0.share_at(h),
        t2.total() == t0.total(),
{
}

} // verus!
