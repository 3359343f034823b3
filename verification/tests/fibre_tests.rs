use fibre::fibre::Fibre;
use fibre::fungible_token::Contract;
use fibre::mint::{MintStatus, MintTokenInput};
use fibre::FibreError;

fn mint_input(collateral_amount: u128, mint_token_id: &str, collateral_token_id: &str) -> MintTokenInput {
    MintTokenInput {
        collateral_amount,
        mint_token_id: mint_token_id.to_string(),
        collateral_token_id: collateral_token_id.to_string(),
    }
}

#[test]
fn get_account_on_untouched_identifier_is_a_zero_valued_read() {
    let fib = Fibre::new();
    let acc = fib.get_account("alice".to_string()).unwrap();
    assert_eq!(acc.get_balance("tokA".to_string()), 0);
    assert_eq!(acc.get_collateral_balance("tokA".to_string()), 0);
    // Reading again, and reading another identifier, sees the same
    // zero-valued state: the read persisted nothing.
    let again = fib.get_account("alice".to_string()).unwrap();
    assert_eq!(again.get_balance("tokA".to_string()), 0);
    let other = fib.get_account("bob".to_string()).unwrap();
    assert_eq!(other.get_balance("tokA".to_string()), 0);
}

#[test]
fn get_account_rejects_malformed_identifier() {
    let fib = Fibre::new();
    assert_eq!(
        fib.get_account("Bad".to_string()).unwrap_err(),
        FibreError::InvalidIdentity
    );
}

#[test]
fn registry_collateral_round_trip() {
    let mut fib = Fibre::new();
    fib.add_collateral("alice".to_string(), "tokB".to_string(), 500).unwrap();
    assert_eq!(
        fib.get_collateral_balance("alice".to_string(), "tokB".to_string()),
        500
    );
    fib.remove_collateral("alice".to_string(), "tokB".to_string(), 500).unwrap();
    assert_eq!(
        fib.get_collateral_balance("alice".to_string(), "tokB".to_string()),
        0
    );
}

#[test]
fn registry_remove_collateral_beyond_posted_fails() {
    let mut fib = Fibre::new();
    fib.add_collateral("alice".to_string(), "tokB".to_string(), 10).unwrap();
    assert_eq!(
        fib.remove_collateral("alice".to_string(), "tokB".to_string(), 11)
            .unwrap_err(),
        FibreError::InsufficientCollateral
    );
    assert_eq!(
        fib.get_collateral_balance("alice".to_string(), "tokB".to_string()),
        10
    );
}

#[test]
fn registry_get_balance_reads_the_credited_amount() {
    let mut fib = Fibre::new();
    assert_eq!(fib.get_balance("alice".to_string(), "tokA".to_string()), 0);
    fib.mint_token("alice".to_string(), mint_input(500, "tokA", "tokB"))
        .unwrap();
    fib.on_mint_token(Ok(String::new()), "alice".to_string(), "tokA".to_string())
        .unwrap();
    assert_eq!(fib.get_balance("alice".to_string(), "tokA".to_string()), 500);
    assert_eq!(fib.get_balance("bob".to_string(), "tokA".to_string()), 0);
}

#[test]
fn get_token_is_strict() {
    let fib = Fibre::new();
    assert_eq!(
        fib.get_token("tokA".to_string()).unwrap_err(),
        FibreError::TokenNotFound
    );
}

#[test]
fn mint_token_logs_an_awaiting_request_and_moves_nothing() {
    let mut fib = Fibre::new();
    let call = fib
        .mint_token("alice".to_string(), mint_input(500, "tokA", "tokB"))
        .unwrap();
    assert_eq!(call.token_id, "tokA");
    assert_eq!(call.account_id, "alice");
    assert_eq!(call.amount, 500);
    let log = fib.get_mint_requests();
    assert_eq!(log.len(), 1);
    assert_eq!(log[0].account_id, "alice");
    assert_eq!(log[0].token_id, "tokA");
    assert_eq!(log[0].amount, 500);
    assert_eq!(log[0].status, MintStatus::AwaitingExternalConfirmation);
    // Nothing is credited before the confirmation arrives.
    let acc = fib.get_account("alice".to_string()).unwrap();
    assert_eq!(acc.get_balance("tokA".to_string()), 0);
    let tok = fib.get_token("tokA".to_string()).unwrap();
    assert_eq!(tok.get_total_shares("alice".to_string()), 0);
}

#[test]
fn mint_token_rejects_malformed_minter() {
    let mut fib = Fibre::new();
    assert_eq!(
        fib.mint_token("Bad".to_string(), mint_input(500, "tokA", "tokB"))
            .unwrap_err(),
        FibreError::InvalidIdentity
    );
    assert_eq!(fib.get_mint_requests().len(), 0);
}

#[test]
fn confirmed_mint_credits_balance_and_share() {
    let mut fib = Fibre::new();
    let mut service = Contract::new("token a".to_string(), "TOKA".to_string(), None, 8);
    let call = fib
        .mint_token("alice".to_string(), mint_input(500, "tokA", "tokB"))
        .unwrap();
    // The host delivers the instruction to the external service.
    service.ft_mint(call.account_id.clone(), call.amount).unwrap();
    assert_eq!(service.ft_balance_of("alice".to_string()), 500);
    // The host hands the successful result back.
    fib.on_mint_token(Ok(String::new()), "alice".to_string(), "tokA".to_string())
        .unwrap();
    let acc = fib.get_account("alice".to_string()).unwrap();
    assert_eq!(acc.get_balance("tokA".to_string()), 500);
    let tok = fib.get_token("tokA".to_string()).unwrap();
    assert_eq!(tok.get_total_shares("alice".to_string()), 500);
    assert_eq!(fib.get_mint_requests()[0].status, MintStatus::Reconciled);
}

#[test]
fn failed_mint_leaves_state_unchanged_and_records_rejection() {
    let mut fib = Fibre::new();
    fib.add_collateral("alice".to_string(), "tokB".to_string(), 77).unwrap();
    fib.mint_token("alice".to_string(), mint_input(500, "tokA", "tokB"))
        .unwrap();
    let r = fib.on_mint_token(
        Err("service refused".to_string()),
        "alice".to_string(),
        "tokA".to_string(),
    );
    assert_eq!(r.unwrap_err(), FibreError::ExternalCallRejected);
    let acc = fib.get_account("alice".to_string()).unwrap();
    assert_eq!(acc.get_balance("tokA".to_string()), 0);
    assert_eq!(acc.get_collateral_balance("tokB".to_string()), 77);
    let tok = fib.get_token("tokA".to_string()).unwrap();
    assert_eq!(tok.get_total_shares("alice".to_string()), 0);
    assert_eq!(fib.get_mint_requests()[0].status, MintStatus::Rejected);
}

#[test]
fn two_confirmed_mints_accumulate_shares() {
    let mut fib = Fibre::new();
    fib.mint_token("alice".to_string(), mint_input(500, "tokA", "tokB"))
        .unwrap();
    fib.on_mint_token(Ok(String::new()), "alice".to_string(), "tokA".to_string())
        .unwrap();
    fib.mint_token("alice".to_string(), mint_input(300, "tokA", "tokB"))
        .unwrap();
    fib.on_mint_token(Ok(String::new()), "alice".to_string(), "tokA".to_string())
        .unwrap();
    let tok = fib.get_token("tokA".to_string()).unwrap();
    assert_eq!(tok.get_total_shares("alice".to_string()), 800);
    let acc = fib.get_account("alice".to_string()).unwrap();
    assert_eq!(acc.get_balance("tokA".to_string()), 800);
    let log = fib.get_mint_requests();
    assert_eq!(log.len(), 2);
    assert_eq!(log[0].status, MintStatus::Reconciled);
    assert_eq!(log[1].status, MintStatus::Reconciled);
}

#[test]
fn confirmation_without_request_is_rejected() {
    let mut fib = Fibre::new();
    assert_eq!(
        fib.on_mint_token(Ok(String::new()), "alice".to_string(), "tokA".to_string())
            .unwrap_err(),
        FibreError::RequestNotFound
    );
}

#[test]
fn reconciliation_overflow_aborts_without_partial_mutation() {
    let mut fib = Fibre::new();
    fib.mint_token("alice".to_string(), mint_input(u128::MAX, "tokA", "tokB"))
        .unwrap();
    fib.on_mint_token(Ok(String::new()), "alice".to_string(), "tokA".to_string())
        .unwrap();
    fib.mint_token("alice".to_string(), mint_input(1, "tokA", "tokB"))
        .unwrap();
    let r = fib.on_mint_token(Ok(String::new()), "alice".to_string(), "tokA".to_string());
    assert_eq!(r.unwrap_err(), FibreError::Overflow);
    let acc = fib.get_account("alice".to_string()).unwrap();
    assert_eq!(acc.get_balance("tokA".to_string()), u128::MAX);
    let tok = fib.get_token("tokA".to_string()).unwrap();
    assert_eq!(tok.get_total_shares("alice".to_string()), u128::MAX);
    assert_eq!(
        fib.get_mint_requests()[1].status,
        MintStatus::AwaitingExternalConfirmation
    );
}
