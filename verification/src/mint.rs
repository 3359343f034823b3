//! The minting workflow's data: the request a caller submits, the
//! instruction handed to the external token service, and the persisted
//! record that tracks each request from issuance to reconciliation.
use vstd::prelude::*;

verus! {

/// What a caller submits to start a mint: how much collateral backs the
/// request, which token to mint, and which token the collateral is
/// denominated in.
pub struct MintTokenInput {
    pub collateral_amount: u128,
    pub mint_token_id: String,
    pub collateral_token_id: String,
}

/// Where a mint request stands.  A request is created awaiting the
/// external service's confirmation and ends reconciled or rejected.
#[derive(Clone, Copy, Debug, PartialEq, Eq, Structural)]
pub enum MintStatus {
    /// The external mint instruction is issued; its result has not
    /// arrived.
    AwaitingExternalConfirmation,
    /// The external service confirmed the mint and its effects are
    /// applied.
    Reconciled,
    /// The external service reported failure; no effects were applied.
    Rejected,
}

/// The durable record of one mint request, kept so that the workflow's
/// outcome stays observable after the original caller has returned.
pub struct MintRequest {
    pub account_id: String,
    pub token_id: String,
    pub amount: u128,
    pub status: MintStatus,
}

/// The one-way instruction the host must deliver to the external token
/// service: mint `amount` for `account_id` on the service `token_id`.
#[derive(Debug)]
pub struct ExternalMintCall {
    pub token_id: String,
    pub account_id: String,
    pub amount: u128,
}

/// How much new supply is requested for a given amount of posted
/// collateral.  The collateral-valuation rule is deliberately left
/// open: this placeholder passes the amount through unchanged, and a
/// real pricing policy would replace it.
pub open spec fn mint_amount_spec(collateral_amount: u128) -> u128 {
    collateral_amount
}

/// Executable form of the mint-amount policy.
pub fn mint_amount(collateral_amount: u128) -> (r: u128)
    ensures
        r == mint_amount_spec(collateral_amount),
{
    collateral_amount
}

/// `r` is a request of `account_id` for `token_id` still awaiting its
/// confirmation.
pub open spec fn request_matches(r: MintRequest, account_id: Seq<char>, token_id: Seq<char>) -> bool {
    &&& r.account_id@ == account_id
    &&& r.token_id@ == token_id
    &&& r.status == MintStatus::AwaitingExternalConfirmation
}

/// `i` is the earliest awaiting request of `account_id` for `token_id`.
pub open spec fn is_first_pending(
    s: Seq<MintRequest>,
    account_id: Seq<char>,
    token_id: Seq<char>,
    i: int,
) -> bool {
    &&& 0 <= i < s.len()
    &&& request_matches(s[i], account_id, token_id)
    &&& forall|j: int| 0 <= j < i ==> !request_matches(s[j], account_id, token_id)
}

/// Some request of `account_id` for `token_id` is still awaiting its
/// confirmation.
pub open spec fn has_pending(s: Seq<MintRequest>, account_id: Seq<char>, token_id: Seq<char>) -> bool {
    exists|i: int| is_first_pending(s, account_id, token_id, i)
}

/// The index of the earliest awaiting request of `account_id` for
/// `token_id`; meaningful only when `has_pending` holds.
pub open spec fn pending_index(s: Seq<MintRequest>, account_id: Seq<char>, token_id: Seq<char>) -> int {
    choose|i: int| is_first_pending(s, account_id, token_id, i)
}

/// The same request with its status replaced.
pub open spec fn with_status(r: MintRequest, status: MintStatus) -> MintRequest {
    MintRequest { account_id: r.account_id, token_id: r.token_id, amount: r.amount, status }
}

/// The index of the earliest awaiting request of `account_id` for
/// `token_id`, or `None` when none is awaiting.
pub fn find_pending(requests: &Vec<MintRequest>, account_id: &String, token_id: &String) -> (r:
    Option<usize>)
    ensures
        match r {
            Some(i) => is_first_pending(requests@, account_id@, token_id@, i as int) && has_pending(
                requests@,
                account_id@,
                token_id@,
            ) && pending_index(requests@, account_id@, token_id@) == i as int,
            None => !has_pending(requests@, account_id@, token_id@),
        },
{
    let mut i: usize = 0;
    while i < requests.len()
        invariant
            i <= requests@.len(),
            forall|j: int| 0 <= j < i ==> !request_matches(requests@[j], account_id@, token_id@),
        decreases requests@.len() - i,
    {
        let req = &requests[i];
        if req.account_id == *account_id && req.token_id == *token_id && req.status
            == MintStatus::AwaitingExternalConfirmation {
            proof {
                assert(is_first_pending(requests@, account_id@, token_id@, i as int));
                let c = pending_index(requests@, account_id@, token_id@);
                if c < i {
                    assert(request_matches(requests@[c], account_id@, token_id@));
                } else if c > i {
                    assert(!request_matches(requests@[i as int], account_id@, token_id@));
                }
            }
            return Some(i);
        }
        i = i + 1;
    }
    proof {
        if has_pending(requests@, account_id@, token_id@) {
            let c = choose|c: int| is_first_pending(requests@, account_id@, token_id@, c);
            assert(request_matches(requests@[c], account_id@, token_id@));
        }
    }
    None
}

} // verus!
