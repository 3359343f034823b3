//! The registry: the durable stores of accounts and tokens, the entry
//! points that act on them, and the minting workflow that coordinates
//! the local ledger with the external token-issuing service.
use crate::account::{Account, fresh_account};
use crate::ids::{account_id_is_valid, valid_account_id};
use crate::mint::{
    ExternalMintCall, MintRequest, MintStatus, MintTokenInput, find_pending, has_pending,
    mint_amount, mint_amount_spec, pending_index, request_matches, with_status,
};
use crate::store::{find_index, has_key, keys_distinct, lemma_value_at, upsert, value_of};
use crate::token::Token;
use crate::FibreError;
use vstd::prelude::*;

verus! {

/// The registry.  It exclusively owns every account and token record;
/// all mutation flows through its operations.  The mint-request log
/// keeps each asynchronous mint observable from issuance to its
/// reconciled or rejected end.
pub struct Fibre {
    accounts: Vec<(String, Account)>,
    tokens: Vec<(String, Token)>,
    mint_requests: Vec<MintRequest>,
}

/// Neither the set of accounts nor any balance or collateral differs
/// between `pre` and `post`.
pub open spec fn accounts_unchanged(pre: Fibre, post: Fibre) -> bool {
    &&& forall|a: Seq<char>| post.has_account(a) == pre.has_account(a)
    &&& forall|a: Seq<char>, t: Seq<char>| post.balance(a, t) == pre.balance(a, t)
    &&& forall|a: Seq<char>, t: Seq<char>| post.collateral(a, t) == pre.collateral(a, t)
}

/// Neither the set of tokens nor any total or share differs between
/// `pre` and `post`.
pub open spec fn tokens_unchanged(pre: Fibre, post: Fibre) -> bool {
    &&& forall|t: Seq<char>| post.has_token(t) == pre.has_token(t)
    &&& forall|t: Seq<char>| post.token_total(t) == pre.token_total(t)
    &&& forall|t: Seq<char>, a: Seq<char>| post.share(t, a) == pre.share(t, a)
}

/// The mint-request log is the same in `pre` and `post`.
pub open spec fn requests_unchanged(pre: Fibre, post: Fibre) -> bool {
    post.requests() == pre.requests()
}

/// `post` is `pre` with `amount` more collateral of account `a` posted
/// against token `t`, the account now persisted, and nothing else
/// moved.
pub open spec fn collateral_posted(
    pre: Fibre,
    post: Fibre,
    a: Seq<char>,
    t: Seq<char>,
    amount: u128,
) -> bool {
    &&& post.collateral(a, t) == pre.collateral(a, t) + amount
    &&& forall|x: Seq<char>, u: Seq<char>|
        !(x == a && u == t) ==> post.collateral(x, u) == pre.collateral(x, u)
    &&& forall|x: Seq<char>, u: Seq<char>| post.balance(x, u) == pre.balance(x, u)
    &&& post.has_account(a)
    &&& forall|x: Seq<char>| x != a ==> post.has_account(x) == pre.has_account(x)
    &&& tokens_unchanged(pre, post)
    &&& requests_unchanged(pre, post)
}

/// `post` is `pre` with `amount` less collateral of account `a` posted
/// against token `t`, the account now persisted, and nothing else
/// moved.
pub open spec fn collateral_released(
    pre: Fibre,
    post: Fibre,
    a: Seq<char>,
    t: Seq<char>,
    amount: u128,
) -> bool {
    &&& post.collateral(a, t) == pre.collateral(a, t) - amount
    &&& forall|x: Seq<char>, u: Seq<char>|
        !(x == a && u == t) ==> post.collateral(x, u) == pre.collateral(x, u)
    &&& forall|x: Seq<char>, u: Seq<char>| post.balance(x, u) == pre.balance(x, u)
    &&& post.has_account(a)
    &&& forall|x: Seq<char>| x != a ==> post.has_account(x) == pre.has_account(x)
    &&& tokens_unchanged(pre, post)
    &&& requests_unchanged(pre, post)
}

/// The logged request at `i` was marked rejected and nothing else
/// moved: no balance, collateral, share or total changed.
pub open spec fn mint_rejected(pre: Fibre, post: Fibre, i: int) -> bool {
    &&& 0 <= i < pre.requests().len()
    &&& post.requests() == pre.requests().update(
        i,
        with_status(pre.requests()[i], MintStatus::Rejected),
    )
    &&& accounts_unchanged(pre, post)
    &&& tokens_unchanged(pre, post)
}

/// The logged request at `i`, of account `a` for token `t`, was
/// reconciled: its amount was credited to the account's balance of `t`
/// and recorded as the account's share of `t`, and nothing else moved.
pub open spec fn mint_reconciled(pre: Fibre, post: Fibre, a: Seq<char>, t: Seq<char>, i: int) -> bool {
    let amt = pre.requests()[i].amount;
    &&& 0 <= i < pre.requests().len()
    &&& post.balance(a, t) == pre.balance(a, t) + amt
    &&& forall|x: Seq<char>, u: Seq<char>|
        !(x == a && u == t) ==> post.balance(x, u) == pre.balance(x, u)
    &&& forall|x: Seq<char>, u: Seq<char>| post.collateral(x, u) == pre.collateral(x, u)
    &&& forall|x: Seq<char>| post.has_account(x) == pre.has_account(x)
    &&& post.share(t, a) == pre.share(t, a) + amt
    &&& forall|u: Seq<char>, x: Seq<char>|
        !(u == t && x == a) ==> post.share(u, x) == pre.share(u, x)
    &&& forall|u: Seq<char>|
        post.token_total(u) == pre.token_total(u) && post.has_token(u) == pre.has_token(u)
    &&& post.requests() == pre.requests().update(
        i,
        with_status(pre.requests()[i], MintStatus::Reconciled),
    )
}

impl Fibre {
    /// Internal well-formedness: each store binds a key at most once,
    /// every stored record is well-formed and keyed by its own
    /// identifier, only validated identities are persisted, and every
    /// logged mint request points at a stored account and token.
    pub closed spec fn wf(self) -> bool {
        &&& keys_distinct(self.accounts@)
        &&& keys_distinct(self.tokens@)
        &&& forall|i: int|
            0 <= i < self.accounts@.len() ==> (#[trigger] self.accounts@[i]).1.wf()
                && self.accounts@[i].1.id() == self.accounts@[i].0@ && valid_account_id(
                self.accounts@[i].0@,
            )
        &&& forall|i: int|
            0 <= i < self.tokens@.len() ==> (#[trigger] self.tokens@[i]).1.wf()
                && self.tokens@[i].1.id() == self.tokens@[i].0@
        &&& forall|i: int|
            0 <= i < self.mint_requests@.len() ==> has_key(
                self.accounts@,
                (#[trigger] self.mint_requests@[i]).account_id@,
            ) && has_key(self.tokens@, self.mint_requests@[i].token_id@)
    }

    /// An account record is persisted under `a`.
    pub closed spec fn has_account(self, a: Seq<char>) -> bool {
        has_key(self.accounts@, a)
    }

    /// The balance account `a` holds of token `t`; zero when the
    /// account was never touched.
    pub closed spec fn balance(self, a: Seq<char>, t: Seq<char>) -> u128 {
        match value_of(self.accounts@, a) {
            Some(acc) => acc.balance_at(t),
            None => 0,
        }
    }

    /// The collateral account `a` has posted against token `t`; zero
    /// when the account was never touched.
    pub closed spec fn collateral(self, a: Seq<char>, t: Seq<char>) -> u128 {
        match value_of(self.accounts@, a) {
            Some(acc) => acc.collateral_at(t),
            None => 0,
        }
    }

    /// A token record is persisted under `t`.
    pub closed spec fn has_token(self, t: Seq<char>) -> bool {
        has_key(self.tokens@, t)
    }

    /// The aggregate issued amount of token `t`; zero when the token
    /// was never created.
    pub closed spec fn token_total(self, t: Seq<char>) -> u128 {
        match value_of(self.tokens@, t) {
            Some(tok) => tok.total(),
            None => 0,
        }
    }

    /// The share of token `t` accumulated by account `a`; zero when
    /// unset.
    pub closed spec fn share(self, t: Seq<char>, a: Seq<char>) -> u128 {
        match value_of(self.tokens@, t) {
            Some(tok) => tok.share_at(a),
            None => 0,
        }
    }

    /// The mint-request log, oldest first.
    pub closed spec fn requests(self) -> Seq<MintRequest> {
        self.mint_requests@
    }

    /// An empty registry: no accounts, no tokens, no logged requests.
    pub fn new() -> (r: Fibre)
        ensures
            r.wf(),
            forall|a: Seq<char>| !r.has_account(a),
            forall|t: Seq<char>| !r.has_token(t),
            forall|a: Seq<char>, t: Seq<char>| r.balance(a, t) == 0 && r.collateral(a, t) == 0,
            forall|t: Seq<char>, a: Seq<char>| r.share(t, a) == 0,
            forall|t: Seq<char>| r.token_total(t) == 0,
            r.requests() == Seq::<MintRequest>::empty(),
    {
        let r = Fibre { accounts: Vec::new(), tokens: Vec::new(), mint_requests: Vec::new() };
        proof {
            assert(r.mint_requests@ == Seq::<MintRequest>::empty());
        }
        r
    }

    /// Persists `account` under `account_id`, replacing any previous
    /// record; rejected when the identifier is malformed, and then
    /// changes nothing.
    pub fn internal_save_account(&mut self, account_id: String, account: Account) -> (r: Result<
        (),
        FibreError,
    >)
        requires
            old(self).wf(),
            account.wf(),
            account.id() == account_id@,
        ensures
            final(self).wf(),
            valid_account_id(account_id@) ==> r == Ok::<(), FibreError>(()) && {
                &&& final(self).has_account(account_id@)
                &&& forall|t: Seq<char>|
                    final(self).balance(account_id@, t) == account.balance_at(t)
                &&& forall|t: Seq<char>|
                    final(self).collateral(account_id@, t) == account.collateral_at(t)
                &&& forall|a: Seq<char>|
                    a != account_id@ ==> final(self).has_account(a) == old(self).has_account(a)
                &&& forall|a: Seq<char>, t: Seq<char>|
                    a != account_id@ ==> final(self).balance(a, t) == old(self).balance(a, t)
                        && final(self).collateral(a, t) == old(self).collateral(a, t)
                &&& tokens_unchanged(*old(self), *final(self))
                &&& requests_unchanged(*old(self), *final(self))
            },
            !valid_account_id(account_id@) ==> r == Err::<(), FibreError>(
                FibreError::InvalidIdentity,
            ) && *final(self) == *old(self),
    {
        if !account_id_is_valid(account_id.as_str()) {
            return Err(FibreError::InvalidIdentity);
        }
        let ghost s0 = self.accounts@;
        upsert(&mut self.accounts, account_id, account);
        proof {
            let s1 = self.accounts@;
            assert(forall|k: Seq<char>|
                has_key(s0, k) ==> has_key(s1, k)) by {
                assert forall|k: Seq<char>| has_key(s0, k) implies has_key(s1, k) by {
                    let j = choose|j: int| 0 <= j < s0.len() && s0[j].0@ == k;
                    assert(s1[j].0@ == k);
                }
            }
        }
        Ok(())
    }

    /// The persisted account under `account_id`, or a fresh zero-valued
    /// account when none is persisted; rejected when the identifier is
    /// malformed and no record exists for it.
    pub fn internal_get_account(&self, account_id: String) -> (r: Result<Account, FibreError>)
        requires
            self.wf(),
        ensures
            self.has_account(account_id@) || valid_account_id(account_id@) ==> r is Ok && {
                let acc = r->Ok_0;
                &&& acc.wf()
                &&& acc.id() == account_id@
                &&& forall|t: Seq<char>| acc.balance_at(t) == self.balance(account_id@, t)
                &&& forall|t: Seq<char>| acc.collateral_at(t) == self.collateral(account_id@, t)
            },
            !self.has_account(account_id@) && valid_account_id(account_id@) ==> r is Ok
                && fresh_account(r->Ok_0, account_id@),
            !(self.has_account(account_id@) || valid_account_id(account_id@)) ==> r
                == Err::<Account, FibreError>(FibreError::InvalidIdentity),
    {
        match find_index(&self.accounts, &account_id) {
            Some(i) => {
                proof {
                    lemma_value_at(self.accounts@, i as int, account_id@);
                }
                Ok(self.accounts[i].1.clone())
            },
            None => Account::new(account_id),
        }
    }

    /// Snapshot of the account under `account_id`: the persisted record,
    /// or a zero-valued account for a never-touched identifier.  A pure
    /// read: no record is created.
    pub fn get_account(&self, account_id: String) -> (r: Result<Account, FibreError>)
        requires
            self.wf(),
        ensures
            self.has_account(account_id@) || valid_account_id(account_id@) ==> r is Ok && {
                let acc = r->Ok_0;
                &&& acc.wf()
                &&& acc.id() == account_id@
                &&& forall|t: Seq<char>| acc.balance_at(t) == self.balance(account_id@, t)
                &&& forall|t: Seq<char>| acc.collateral_at(t) == self.collateral(account_id@, t)
            },
            !self.has_account(account_id@) && valid_account_id(account_id@) ==> r is Ok
                && fresh_account(r->Ok_0, account_id@),
            !(self.has_account(account_id@) || valid_account_id(account_id@)) ==> r
                == Err::<Account, FibreError>(FibreError::InvalidIdentity),
    {
        self.internal_get_account(account_id)
    }

    /// Posts `amount` more collateral of `account_id` against
    /// `token_id`, creating the account if it was never touched.  Fails
    /// on a malformed identity or on overflow, and then changes
    /// nothing.
    pub fn add_collateral(&mut self, account_id: String, token_id: String, amount: u128) -> (r:
        Result<(), FibreError>)
        requires
            old(self).wf(),
        ensures
            final(self).wf(),
            !(old(self).has_account(account_id@) || valid_account_id(account_id@)) ==> r
                == Err::<(), FibreError>(FibreError::InvalidIdentity) && *final(self) == *old(self),
            (old(self).has_account(account_id@) || valid_account_id(account_id@)) && old(
                self,
            ).collateral(account_id@, token_id@) + amount > u128::MAX ==> r == Err::<(), FibreError>(
                FibreError::CollateralOverflow,
            ) && *final(self) == *old(self),
            (old(self).has_account(account_id@) || valid_account_id(account_id@)) && old(
                self,
            ).collateral(account_id@, token_id@) + amount <= u128::MAX ==> r == Ok::<(), FibreError>(
                (),
            ) && collateral_posted(*old(self), *final(self), account_id@, token_id@, amount),
    {
        let ghost pre = *self;
        let ghost aid = account_id@;
        let ghost tid = token_id@;
        let mut account = match self.internal_get_account(account_id.clone()) {
            Ok(a) => a,
            Err(e) => {
                return Err(e);
            },
        };
        let ghost acc0 = account;
        match account.add_collateral(token_id, amount) {
            Ok(()) => (),
            Err(e) => {
                return Err(e);
            },
        }
        let ghost acc1 = account;
        proof {
            if pre.has_account(aid) {
                let j = choose|j: int|
                    0 <= j < pre.accounts@.len() && pre.accounts@[j].0@ == aid;
                assert(valid_account_id(pre.accounts@[j].0@));
            }
        }
        let r = self.internal_save_account(account_id, account);
        proof {
            assert(r == Ok::<(), FibreError>(()));
            assert forall|a: Seq<char>, u: Seq<char>|
                !(a == aid && u == tid) implies self.collateral(a, u) == pre.collateral(a, u) by {
                if a == aid {
                    assert(self.collateral(aid, u) == acc1.collateral_at(u));
                    assert(acc1.collateral_at(u) == acc0.collateral_at(u));
                    assert(acc0.collateral_at(u) == pre.collateral(aid, u));
                }
            }
            assert forall|a: Seq<char>, u: Seq<char>| self.balance(a, u) == pre.balance(a, u) by {
                if a == aid {
                    assert(self.balance(aid, u) == acc1.balance_at(u));
                    assert(acc1.balance_at(u) == acc0.balance_at(u));
                    assert(acc0.balance_at(u) == pre.balance(aid, u));
                }
            }
        }
        r
    }

    /// Releases `amount` collateral of `account_id` posted against
    /// `token_id`.  Fails on a malformed identity or when more is asked
    /// than is posted, and then changes nothing.
    pub fn remove_collateral(&mut self, account_id: String, token_id: String, amount: u128) -> (r:
        Result<(), FibreError>)
        requires
            old(self).wf(),
        ensures
            final(self).wf(),
            !(old(self).has_account(account_id@) || valid_account_id(account_id@)) ==> r
                == Err::<(), FibreError>(FibreError::InvalidIdentity) && *final(self) == *old(self),
            (old(self).has_account(account_id@) || valid_account_id(account_id@)) && amount > old(
                self,
            ).collateral(account_id@, token_id@) ==> r == Err::<(), FibreError>(
                FibreError::InsufficientCollateral,
            ) && *final(self) == *old(self),
            (old(self).has_account(account_id@) || valid_account_id(account_id@)) && amount <= old(
                self,
            ).collateral(account_id@, token_id@) ==> r == Ok::<(), FibreError>(())
                && collateral_released(*old(self), *final(self), account_id@, token_id@, amount),
    {
        let ghost pre = *self;
        let ghost aid = account_id@;
        let ghost tid = token_id@;
        let mut account = match self.internal_get_account(account_id.clone()) {
            Ok(a) => a,
            Err(e) => {
                return Err(e);
            },
        };
        let ghost acc0 = account;
        match account.remove_collateral(token_id, amount) {
            Ok(()) => (),
            Err(e) => {
                return Err(e);
            },
        }
        let ghost acc1 = account;
        proof {
            if pre.has_account(aid) {
                let j = choose|j: int|
                    0 <= j < pre.accounts@.len() && pre.accounts@[j].0@ == aid;
                assert(valid_account_id(pre.accounts@[j].0@));
            }
        }
        let r = self.internal_save_account(account_id, account);
        proof {
            assert(r == Ok::<(), FibreError>(()));
            assert forall|a: Seq<char>, u: Seq<char>|
                !(a == aid && u == tid) implies self.collateral(a, u) == pre.collateral(a, u) by {
                if a == aid {
                    assert(self.collateral(aid, u) == acc1.collateral_at(u));
                    assert(acc1.collateral_at(u) == acc0.collateral_at(u));
                    assert(acc0.collateral_at(u) == pre.collateral(aid, u));
                }
            }
            assert forall|a: Seq<char>, u: Seq<char>| self.balance(a, u) == pre.balance(a, u) by {
                if a == aid {
                    assert(self.balance(aid, u) == acc1.balance_at(u));
                    assert(acc1.balance_at(u) == acc0.balance_at(u));
                    assert(acc0.balance_at(u) == pre.balance(aid, u));
                }
            }
        }
        r
    }

    /// Persists `token` under `token_id`, replacing any previous
    /// record.
    fn save_token(&mut self, token_id: String, token: Token)
        requires
            old(self).wf(),
            token.wf(),
            token.id() == token_id@,
        ensures
            final(self).wf(),
            final(self).has_token(token_id@),
            final(self).token_total(token_id@) == token.total(),
            forall|a: Seq<char>| final(self).share(token_id@, a) == token.share_at(a),
            forall|t: Seq<char>|
                t != token_id@ ==> final(self).has_token(t) == old(self).has_token(t)
                    && final(self).token_total(t) == old(self).token_total(t),
            forall|t: Seq<char>, a: Seq<char>|
                t != token_id@ ==> final(self).share(t, a) == old(self).share(t, a),
            accounts_unchanged(*old(self), *final(self)),
            requests_unchanged(*old(self), *final(self)),
    {
        let ghost s0 = self.tokens@;
        upsert(&mut self.tokens, token_id, token);
        proof {
            let s1 = self.tokens@;
            assert forall|k: Seq<char>| has_key(s0, k) implies has_key(s1, k) by {
                let j = choose|j: int| 0 <= j < s0.len() && s0[j].0@ == k;
                assert(s1[j].0@ == k);
            }
        }
    }

    /// The persisted token under `token_id`; the strict lookup, for
    /// callers whose semantics require the token to already exist.
    pub fn get_token(&self, token_id: String) -> (r: Result<Token, FibreError>)
        requires
            self.wf(),
        ensures
            self.has_token(token_id@) ==> r is Ok && {
                let tok = r->Ok_0;
                &&& tok.wf()
                &&& tok.id() == token_id@
                &&& tok.total() == self.token_total(token_id@)
                &&& forall|a: Seq<char>| tok.share_at(a) == self.share(token_id@, a)
            },
            !self.has_token(token_id@) ==> r == Err::<Token, FibreError>(FibreError::TokenNotFound),
    {
        match find_index(&self.tokens, &token_id) {
            Some(i) => {
                proof {
                    lemma_value_at(self.tokens@, i as int, token_id@);
                }
                Ok(self.tokens[i].1.clone())
            },
            None => Err(FibreError::TokenNotFound),
        }
    }

    /// The persisted token under `token_id`, or a fresh zero-state
    /// token when none is persisted; the lenient lookup, for internal
    /// bookkeeping paths that create the record lazily.
    pub fn get_token_or_new(&self, token_id: String) -> (r: Token)
        requires
            self.wf(),
        ensures
            r.wf(),
            r.id() == token_id@,
            r.total() == self.token_total(token_id@),
            forall|a: Seq<char>| r.share_at(a) == self.share(token_id@, a),
    {
        match find_index(&self.tokens, &token_id) {
            Some(i) => {
                proof {
                    lemma_value_at(self.tokens@, i as int, token_id@);
                }
                self.tokens[i].1.clone()
            },
            None => Token::new(token_id),
        }
    }

    /// The one-way mint instruction for the external token service
    /// identified by `token_id`: mint `amount` on behalf of
    /// `account_id`.
    pub fn internal_ft_mint(&self, token_id: String, account_id: String, amount: u128) -> (r:
        ExternalMintCall)
        ensures
            r.token_id@ == token_id@,
            r.account_id@ == account_id@,
            r.amount == amount,
    {
        ExternalMintCall { token_id, account_id, amount }
    }

    /// Starts a mint: resolves the caller's account (creating it if
    /// absent), creates the token record for the minted token if
    /// absent, logs the request as awaiting confirmation, and returns
    /// the one-way instruction the host must deliver to the external
    /// token service.  No balance, collateral or share moves here:
    /// effects are applied only when the confirmation arrives.  Fails
    /// on a malformed caller identity, and then changes nothing.
    pub fn mint_token(&mut self, minter_id: String, input: MintTokenInput) -> (r: Result<
        ExternalMintCall,
        FibreError,
    >)
        requires
            old(self).wf(),
        ensures
            final(self).wf(),
            !(old(self).has_account(minter_id@) || valid_account_id(minter_id@)) ==> r
                == Err::<ExternalMintCall, FibreError>(FibreError::InvalidIdentity) && *final(self)
                == *old(self),
            (old(self).has_account(minter_id@) || valid_account_id(minter_id@)) ==> r is Ok && ({
                let call = r->Ok_0;
                &&& call.token_id@ == input.mint_token_id@
                &&& call.account_id@ == minter_id@
                &&& call.amount == mint_amount_spec(input.collateral_amount)
                &&& final(self).requests().len() == old(self).requests().len() + 1
                &&& final(self).requests().subrange(0, old(self).requests().len() as int) == old(
                    self,
                ).requests()
                &&& ({
                    let req = final(self).requests().last();
                    req.account_id@ == minter_id@ && req.token_id@ == input.mint_token_id@
                        && req.amount == mint_amount_spec(input.collateral_amount) && req.status
                        == MintStatus::AwaitingExternalConfirmation
                })
                &&& final(self).has_account(minter_id@)
                &&& forall|a: Seq<char>|
                    a != minter_id@ ==> final(self).has_account(a) == old(self).has_account(a)
                &&& forall|a: Seq<char>, t: Seq<char>|
                    final(self).balance(a, t) == old(self).balance(a, t) && final(self).collateral(
                        a,
                        t,
                    ) == old(self).collateral(a, t)
                &&& final(self).has_token(input.mint_token_id@)
                &&& forall|t: Seq<char>|
                    t != input.mint_token_id@ ==> final(self).has_token(t) == old(self).has_token(t)
                &&& forall|t: Seq<char>| final(self).token_total(t) == old(self).token_total(t)
                &&& forall|t: Seq<char>, a: Seq<char>|
                    final(self).share(t, a) == old(self).share(t, a)
            }),
    {
        let ghost pre = *self;
        let ghost aid = minter_id@;
        let ghost tid = input.mint_token_id@;
        let account = match self.internal_get_account(minter_id.clone()) {
            Ok(a) => a,
            Err(e) => {
                return Err(e);
            },
        };
        let ghost acc0 = account;
        proof {
            if pre.has_account(aid) {
                let j = choose|j: int|
                    0 <= j < pre.accounts@.len() && pre.accounts@[j].0@ == aid;
                assert(valid_account_id(pre.accounts@[j].0@));
            }
        }
        let r1 = self.internal_save_account(minter_id.clone(), account);
        proof {
            assert(r1 == Ok::<(), FibreError>(()));
        }
        let ghost m1 = *self;
        let token = self.get_token_or_new(input.mint_token_id.clone());
        let ghost tok0 = token;
        self.save_token(input.mint_token_id.clone(), token);
        let ghost m2 = *self;
        let amount = mint_amount(input.collateral_amount);
        let req = MintRequest {
            account_id: minter_id.clone(),
            token_id: input.mint_token_id.clone(),
            amount,
            status: MintStatus::AwaitingExternalConfirmation,
        };
        self.mint_requests.push(req);
        proof {
            assert(self.accounts@ == m2.accounts@ && self.tokens@ == m2.tokens@);
            assert forall|i: int| 0 <= i < self.mint_requests@.len() implies has_key(
                self.accounts@,
                (#[trigger] self.mint_requests@[i]).account_id@,
            ) && has_key(self.tokens@, self.mint_requests@[i].token_id@) by {
                if i < pre.mint_requests@.len() {
                    assert(self.mint_requests@[i] == pre.mint_requests@[i]);
                    let k = pre.mint_requests@[i].account_id@;
                    let kt = pre.mint_requests@[i].token_id@;
                    assert(has_key(pre.accounts@, k) && has_key(pre.tokens@, kt));
                    assert(m1.has_account(k) == (k == aid || pre.has_account(k)));
                    assert(m2.has_account(k) == m1.has_account(k));
                    if kt != tid {
                        assert(m2.has_token(kt) == m1.has_token(kt));
                    }
                } else {
                    assert(self.mint_requests@[i] == req);
                    assert(m2.has_account(aid));
                    assert(m2.has_token(tid));
                }
            }
            assert(self.mint_requests@.subrange(0, pre.mint_requests@.len() as int)
                =~= pre.mint_requests@);
            assert forall|a: Seq<char>, t: Seq<char>|
                self.balance(a, t) == pre.balance(a, t) && self.collateral(a, t) == pre.collateral(
                    a,
                    t,
                ) by {
                if a == aid {
                    assert(m1.balance(aid, t) == acc0.balance_at(t));
                    assert(acc0.balance_at(t) == pre.balance(aid, t));
                    assert(m1.collateral(aid, t) == acc0.collateral_at(t));
                    assert(acc0.collateral_at(t) == pre.collateral(aid, t));
                }
            }
            assert forall|t: Seq<char>, a: Seq<char>|
                self.token_total(t) == pre.token_total(t) && self.share(t, a) == pre.share(
                    t,
                    a,
                ) by {
                if t == tid {
                    assert(m2.token_total(tid) == tok0.total());
                    assert(tok0.total() == pre.token_total(tid));
                    assert(m2.share(tid, a) == tok0.share_at(a));
                    assert(tok0.share_at(a) == pre.share(tid, a));
                }
            }
        }
        Ok(self.internal_ft_mint(input.mint_token_id, minter_id, amount))
    }

    /// Replaces the status of the logged request at `i`.
    fn set_request_status(&mut self, i: usize, status: MintStatus)
        requires
            old(self).wf(),
            i < old(self).requests().len(),
        ensures
            final(self).wf(),
            final(self).requests() == old(self).requests().update(
                i as int,
                with_status(old(self).requests()[i as int], status),
            ),
            accounts_unchanged(*old(self), *final(self)),
            tokens_unchanged(*old(self), *final(self)),
    {
        let account_id = self.mint_requests[i].account_id.clone();
        let token_id = self.mint_requests[i].token_id.clone();
        let amount = self.mint_requests[i].amount;
        self.mint_requests[i] = MintRequest { account_id, token_id, amount, status };
    }

    /// Applies the external mint call's result: the continuation the
    /// host invokes when the call completes, never a caller entry
    /// point.  On success the earliest awaiting request of
    /// `account_id` for `token_id` is reconciled: the minted amount is
    /// credited to the account's balance and recorded as share.  On
    /// failure the request is marked rejected, nothing else moves, and
    /// the failure is reported rather than dropped.  Any arithmetic
    /// overflow aborts the whole reconciliation with no partial
    /// mutation.  Relies on the external boundary's at-most-once
    /// completion guarantee: no deduplication happens here.
    pub fn on_mint_token(
        &mut self,
        call_result: Result<String, String>,
        account_id: String,
        token_id: String,
    ) -> (r: Result<(), FibreError>)
        requires
            old(self).wf(),
        ensures
            final(self).wf(),
            !has_pending(old(self).requests(), account_id@, token_id@) ==> r == Err::<
                (),
                FibreError,
            >(FibreError::RequestNotFound) && *final(self) == *old(self),
            has_pending(old(self).requests(), account_id@, token_id@) ==> ({
                let reqs0 = old(self).requests();
                let i = pending_index(reqs0, account_id@, token_id@);
                let amt = reqs0[i].amount;
                let b0 = old(self).balance(account_id@, token_id@);
                let s0 = old(self).share(token_id@, account_id@);
                &&& call_result is Err ==> r == Err::<(), FibreError>(
                    FibreError::ExternalCallRejected,
                ) && mint_rejected(*old(self), *final(self), i)
                &&& call_result is Ok && b0 + amt > u128::MAX ==> r == Err::<(), FibreError>(
                    FibreError::Overflow,
                ) && *final(self) == *old(self)
                &&& call_result is Ok && b0 + amt <= u128::MAX && s0 + amt > u128::MAX ==> r
                    == Err::<(), FibreError>(FibreError::ShareOverflow) && *final(self) == *old(
                    self,
                )
                &&& call_result is Ok && b0 + amt <= u128::MAX && s0 + amt <= u128::MAX ==> r
                    == Ok::<(), FibreError>(()) && mint_reconciled(
                    *old(self),
                    *final(self),
                    account_id@,
                    token_id@,
                    i,
                )
            }),
    {
        let ghost pre = *self;
        let ghost aid = account_id@;
        let ghost tid = token_id@;
        let idx = match find_pending(&self.mint_requests, &account_id, &token_id) {
            Some(i) => i,
            None => {
                return Err(FibreError::RequestNotFound);
            },
        };
        if call_result.is_err() {
            self.set_request_status(idx, MintStatus::Rejected);
            return Err(FibreError::ExternalCallRejected);
        }
        let amount = self.mint_requests[idx].amount;
        proof {
            assert(request_matches(pre.mint_requests@[idx as int], aid, tid));
            assert(has_key(pre.accounts@, (#[trigger] pre.mint_requests@[idx as int]).account_id@)
                && has_key(pre.tokens@, pre.mint_requests@[idx as int].token_id@));
        }
        let mut account = match self.internal_get_account(account_id.clone()) {
            Ok(a) => a,
            Err(e) => {
                return Err(e);
            },
        };
        let ghost acc0 = account;
        let mut token = match self.get_token(token_id.clone()) {
            Ok(t) => t,
            Err(e) => {
                return Err(e);
            },
        };
        let ghost tok0 = token;
        match account.deposit(token_id.clone(), amount) {
            Ok(()) => (),
            Err(e) => {
                return Err(e);
            },
        }
        let ghost acc1 = account;
        match token.mint(account_id.clone(), amount) {
            Ok(()) => (),
            Err(e) => {
                return Err(e);
            },
        }
        let ghost tok1 = token;
        proof {
            let j = choose|j: int| 0 <= j < pre.accounts@.len() && pre.accounts@[j].0@ == aid;
            assert(valid_account_id(pre.accounts@[j].0@));
        }
        let r1 = self.internal_save_account(account_id.clone(), account);
        proof {
            assert(r1 == Ok::<(), FibreError>(()));
        }
        let ghost m1 = *self;
        self.save_token(token_id, token);
        let ghost m2 = *self;
        self.set_request_status(idx, MintStatus::Reconciled);
        proof {
            assert forall|a: Seq<char>, t: Seq<char>|
                !(a == aid && t == tid) implies self.balance(a, t) == pre.balance(a, t) by {
                if a == aid {
                    assert(m1.balance(aid, t) == acc1.balance_at(t));
                    assert(acc1.balance_at(t) == acc0.balance_at(t));
                    assert(acc0.balance_at(t) == pre.balance(aid, t));
                }
            }
            assert(self.balance(aid, tid) == acc1.balance_at(tid));
            assert forall|a: Seq<char>, t: Seq<char>|
                self.collateral(a, t) == pre.collateral(a, t) by {
                if a == aid {
                    assert(m1.collateral(aid, t) == acc1.collateral_at(t));
                    assert(acc1.collateral_at(t) == acc0.collateral_at(t));
                    assert(acc0.collateral_at(t) == pre.collateral(aid, t));
                }
            }
            assert forall|t: Seq<char>, a: Seq<char>|
                !(t == tid && a == aid) implies self.share(t, a) == pre.share(t, a) by {
                if t == tid {
                    assert(m2.share(tid, a) == tok1.share_at(a));
                    assert(tok1.share_at(a) == tok0.share_at(a));
                    assert(tok0.share_at(a) == pre.share(tid, a));
                }
            }
            assert(self.share(tid, aid) == tok1.share_at(aid));
            assert forall|t: Seq<char>|
                self.token_total(t) == pre.token_total(t) && self.has_token(t) == pre.has_token(
                    t,
                ) by {
                if t == tid {
                    assert(m2.token_total(tid) == tok1.total());
                    assert(tok1.total() == tok0.total());
                    assert(tok0.total() == pre.token_total(tid));
                }
            }
        }
        Ok(())
    }

    /// The mint-request log, oldest first: one record per issued mint
    /// request, with where it stands.
    pub fn get_mint_requests(&self) -> (r: &Vec<MintRequest>)
        ensures
            r@ == self.requests(),
    {
        &self.mint_requests
    }

    /// The balance `account_id` holds of `token_id`; zero for a
    /// never-touched account.  A pure read.
    pub fn get_balance(&self, account_id: String, token_id: String) -> (r: u128)
        requires
            self.wf(),
        ensures
            r == self.balance(account_id@, token_id@),
    {
        match find_index(&self.accounts, &account_id) {
            Some(i) => {
                proof {
                    lemma_value_at(self.accounts@, i as int, account_id@);
                }
                self.accounts[i].1.get_balance(token_id)
            },
            None => 0,
        }
    }

    /// The collateral `account_id` has posted against `token_id`; zero
    /// for a never-touched account.  A pure read.
    pub fn get_collateral_balance(&self, account_id: String, token_id: String) -> (r: u128)
        requires
            self.wf(),
        ensures
            r == self.collateral(account_id@, token_id@),
    {
        match find_index(&self.accounts, &account_id) {
            Some(i) => {
                proof {
                    lemma_value_at(self.accounts@, i as int, account_id@);
                }
                self.accounts[i].1.get_collateral_balance(token_id)
            },
            None => 0,
        }
    }
}

/// Law: posting collateral and then releasing the same amount restores
/// every collateral balance exactly, and nothing else has moved.
pub proof fn lemma_registry_collateral_round_trip(
    f0: Fibre,
    f1: Fibre,
    f2: Fibre,
    a: Seq<char>,
    t: Seq<char>,
    amount: u128,
)
    requires
        collateral_posted(f0, f1, a, t, amount),
        collateral_released(f1, f2, a, t, amount),
    ensures
        forall|x: Seq<char>, u: Seq<char>| f2.collateral(x, u) == f0.collateral(x, u),
        forall|x: Seq<char>, u: Seq<char>| f2.balance(x, u) == f0.balance(x, u),
        tokens_unchanged(f0, f2),
        requests_unchanged(f0, f2),
{
}

/// Law: two reconciled mint requests of the same account for the same
/// token accumulate additively, in its balance and in its share.
pub proof fn lemma_registry_mints_accumulate(
    f0: Fibre,
    f1: Fibre,
    f2: Fibre,
    a: Seq<char>,
    t: Seq<char>,
    i: int,
    j: int,
)
    requires
        mint_reconciled(f0, f1, a, t, i),
        mint_reconciled(f1, f2, a, t, j),
    ensures
        f2.balance(a, t) == f0.balance(a, t) + f0.requests()[i].amount + f1.requests()[j].amount,
        f2.share(t, a) == f0.share(t, a) + f0.requests()[i].amount + f1.requests()[j].amount,
        forall|x: Seq<char>, u: Seq<char>| f2.collateral(x, u) == f0.collateral(x, u),
{
}

} // verus!
