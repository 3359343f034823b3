use fibre::fungible_token::Contract;
use fibre::FibreError;

fn service() -> Contract {
    Contract::new("wrapped near".to_string(), "wNEAR".to_string(), None, 24)
}

#[test]
fn new_contract_keeps_metadata_and_starts_empty() {
    let c = service();
    assert_eq!(c.get_metadata().name, "wrapped near");
    assert_eq!(c.get_metadata().symbol, "wNEAR");
    assert_eq!(c.get_metadata().decimals, 24);
    assert_eq!(c.ft_total_supply(), 0);
    assert_eq!(c.ft_balance_of("alice".to_string()), 0);
}

#[test]
fn ft_mint_credits_holder_and_total() {
    let mut c = service();
    c.ft_mint("alice".to_string(), 500).unwrap();
    c.ft_mint("bob".to_string(), 70).unwrap();
    c.ft_mint("alice".to_string(), 30).unwrap();
    assert_eq!(c.ft_balance_of("alice".to_string()), 530);
    assert_eq!(c.ft_balance_of("bob".to_string()), 70);
    assert_eq!(c.ft_total_supply(), 600);
}

#[test]
fn ft_mint_overflow_fails_and_changes_nothing() {
    let mut c = service();
    c.ft_mint("alice".to_string(), u128::MAX).unwrap();
    assert_eq!(
        c.ft_mint("alice".to_string(), 1).unwrap_err(),
        FibreError::Overflow
    );
    assert_eq!(c.ft_balance_of("alice".to_string()), u128::MAX);
    assert_eq!(c.ft_total_supply(), u128::MAX);
}

#[test]
fn ft_burn_debits_holder_and_total() {
    let mut c = service();
    c.ft_mint("alice".to_string(), 500).unwrap();
    c.ft_burn("alice".to_string(), 200).unwrap();
    assert_eq!(c.ft_balance_of("alice".to_string()), 300);
    assert_eq!(c.ft_total_supply(), 300);
}

#[test]
fn ft_burn_beyond_balance_fails_and_changes_nothing() {
    let mut c = service();
    c.ft_mint("alice".to_string(), 100).unwrap();
    assert_eq!(
        c.ft_burn("alice".to_string(), 101).unwrap_err(),
        FibreError::InsufficientBalance
    );
    assert_eq!(c.ft_balance_of("alice".to_string()), 100);
    assert_eq!(c.ft_total_supply(), 100);
}
