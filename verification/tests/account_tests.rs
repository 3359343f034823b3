use fibre::account::Account;
use fibre::FibreError;

fn fresh(id: &str) -> Account {
    Account::new(id.to_string()).expect("valid identifier")
}

#[test]
fn new_accepts_valid_identifiers() {
    assert!(Account::new("alice".to_string()).is_ok());
    assert!(Account::new("a-b.c_d".to_string()).is_ok());
    assert!(Account::new("ab".to_string()).is_ok());
    assert!(Account::new("a0123456789".to_string()).is_ok());
}

#[test]
fn new_rejects_malformed_identifiers() {
    assert_eq!(
        Account::new("a".to_string()).unwrap_err(),
        FibreError::InvalidIdentity
    );
    assert_eq!(
        Account::new("Alice".to_string()).unwrap_err(),
        FibreError::InvalidIdentity
    );
    assert_eq!(
        Account::new("-alice".to_string()).unwrap_err(),
        FibreError::InvalidIdentity
    );
    assert_eq!(
        Account::new("alice-".to_string()).unwrap_err(),
        FibreError::InvalidIdentity
    );
    assert_eq!(
        Account::new("al--ice".to_string()).unwrap_err(),
        FibreError::InvalidIdentity
    );
    let long = "a".repeat(65);
    assert_eq!(
        Account::new(long).unwrap_err(),
        FibreError::InvalidIdentity
    );
}

#[test]
fn deposit_withdraw_round_trip() {
    let mut acc = fresh("alice");
    assert_eq!(acc.get_balance("tokA".to_string()), 0);
    acc.deposit("tokA".to_string(), 100).unwrap();
    assert_eq!(acc.get_balance("tokA".to_string()), 100);
    acc.withdraw("tokA".to_string(), 100).unwrap();
    assert_eq!(acc.get_balance("tokA".to_string()), 0);
}

#[test]
fn withdraw_more_than_balance_fails_and_changes_nothing() {
    let mut acc = fresh("alice");
    acc.deposit("tokA".to_string(), 30).unwrap();
    assert_eq!(
        acc.withdraw("tokA".to_string(), 50).unwrap_err(),
        FibreError::InsufficientBalance
    );
    assert_eq!(acc.get_balance("tokA".to_string()), 30);
}

#[test]
fn deposit_overflow_fails_and_changes_nothing() {
    let mut acc = fresh("alice");
    acc.deposit("tokA".to_string(), u128::MAX).unwrap();
    assert_eq!(
        acc.deposit("tokA".to_string(), 1).unwrap_err(),
        FibreError::Overflow
    );
    assert_eq!(acc.get_balance("tokA".to_string()), u128::MAX);
}

#[test]
fn balances_are_kept_per_token() {
    let mut acc = fresh("alice");
    acc.deposit("tokA".to_string(), 7).unwrap();
    acc.deposit("tokB".to_string(), 11).unwrap();
    acc.withdraw("tokA".to_string(), 5).unwrap();
    assert_eq!(acc.get_balance("tokA".to_string()), 2);
    assert_eq!(acc.get_balance("tokB".to_string()), 11);
}

#[test]
fn collateral_round_trip() {
    let mut acc = fresh("alice");
    acc.add_collateral("tokB".to_string(), 500).unwrap();
    assert_eq!(acc.get_collateral_balance("tokB".to_string()), 500);
    acc.remove_collateral("tokB".to_string(), 500).unwrap();
    assert_eq!(acc.get_collateral_balance("tokB".to_string()), 0);
}

#[test]
fn remove_collateral_beyond_posted_fails_and_changes_nothing() {
    let mut acc = fresh("alice");
    acc.add_collateral("tokB".to_string(), 40).unwrap();
    assert_eq!(
        acc.remove_collateral("tokB".to_string(), 41).unwrap_err(),
        FibreError::InsufficientCollateral
    );
    assert_eq!(acc.get_collateral_balance("tokB".to_string()), 40);
}

#[test]
fn add_collateral_overflow_fails_and_changes_nothing() {
    let mut acc = fresh("alice");
    acc.add_collateral("tokB".to_string(), u128::MAX).unwrap();
    assert_eq!(
        acc.add_collateral("tokB".to_string(), 1).unwrap_err(),
        FibreError::CollateralOverflow
    );
    assert_eq!(acc.get_collateral_balance("tokB".to_string()), u128::MAX);
}

#[test]
fn collateral_does_not_touch_balance() {
    let mut acc = fresh("alice");
    acc.deposit("tokA".to_string(), 9).unwrap();
    acc.add_collateral("tokA".to_string(), 5).unwrap();
    assert_eq!(acc.get_balance("tokA".to_string()), 9);
    assert_eq!(acc.get_collateral_balance("tokA".to_string()), 5);
}
