use fibre::token::Token;
use fibre::FibreError;

#[test]
fn new_token_has_no_shares() {
    let tok = Token::new("tokA".to_string());
    assert_eq!(tok.get_total_shares("alice".to_string()), 0);
}

#[test]
fn shares_accumulate_additively() {
    let mut tok = Token::new("tokA".to_string());
    tok.internal_increment_shares("alice".to_string(), 500).unwrap();
    tok.internal_increment_shares("alice".to_string(), 300).unwrap();
    assert_eq!(tok.get_total_shares("alice".to_string()), 800);
}

#[test]
fn shares_are_kept_per_holder() {
    let mut tok = Token::new("tokA".to_string());
    tok.internal_increment_shares("alice".to_string(), 10).unwrap();
    tok.internal_increment_shares("bob".to_string(), 20).unwrap();
    assert_eq!(tok.get_total_shares("alice".to_string()), 10);
    assert_eq!(tok.get_total_shares("bob".to_string()), 20);
}

#[test]
fn share_overflow_fails_and_changes_nothing() {
    let mut tok = Token::new("tokA".to_string());
    tok.internal_increment_shares("alice".to_string(), u128::MAX).unwrap();
    assert_eq!(
        tok.internal_increment_shares("alice".to_string(), 1).unwrap_err(),
        FibreError::ShareOverflow
    );
    assert_eq!(tok.get_total_shares("alice".to_string()), u128::MAX);
}

#[test]
fn mint_records_share() {
    let mut tok = Token::new("tokA".to_string());
    tok.mint("alice".to_string(), 500).unwrap();
    assert_eq!(tok.get_total_shares("alice".to_string()), 500);
}
