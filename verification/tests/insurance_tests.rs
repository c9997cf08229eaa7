use stellar_grants::constants::DEFAULT_INSURANCE_DURATION_LEDGERS;
use stellar_grants::errors::ContractError;
use stellar_grants::insurance::InsuranceBook;

const HOLDER: u64 = 5;
const TOKEN: u64 = 6;

#[test]
fn test_premium_calculated_correctly() {
    let mut book = InsuranceBook::new();
    let mut transfers = Vec::new();
    let coverage = 1_000_000i128;
    let policy = book.purchase_policy(HOLDER, 1, TOKEN, coverage, 0, &mut transfers).unwrap();
    assert_eq!(policy.premium_paid, 5_000);
    assert_eq!(book.pool_balance(TOKEN), 5_000);
}

#[test]
fn test_claim_exceeding_coverage_is_capped() {
    let mut book = InsuranceBook::new();
    let mut transfers = Vec::new();
    let coverage = 1_000_000i128;
    book.purchase_policy(HOLDER, 1, TOKEN, coverage, 0, &mut transfers).unwrap();
    book.set_pool(TOKEN, 2_000_000);

    let claim_id = book.file_claim(HOLDER, 1, 2_000_000, "bug".to_string(), 0).unwrap();
    book.approve_claim(claim_id, 2_000_000, 0, &mut transfers).unwrap();

    let claim = book.get_claim(claim_id).unwrap();
    assert_eq!(claim.payout_amount, Some(1_000_000));
}

#[test]
fn test_pool_insufficient_payout_is_capped() {
    let mut book = InsuranceBook::new();
    let mut transfers = Vec::new();
    book.purchase_policy(HOLDER, 1, TOKEN, 1_000_000, 0, &mut transfers).unwrap();
    let claim_id = book.file_claim(HOLDER, 1, 1_000_000, "issue".to_string(), 0).unwrap();
    book.approve_claim(claim_id, 1_000_000, 0, &mut transfers).unwrap();
    let claim = book.get_claim(claim_id).unwrap();
    assert_eq!(claim.payout_amount, Some(5_000));
}

#[test]
fn test_expired_policy_claim_rejected() {
    let mut book = InsuranceBook::new();
    let mut transfers = Vec::new();
    book.purchase_policy(HOLDER, 1, TOKEN, 1_000_000, 0, &mut transfers).unwrap();
    let late = DEFAULT_INSURANCE_DURATION_LEDGERS as u64 + 1;
    let err = book.file_claim(HOLDER, 1, 500_000, "late".to_string(), late).unwrap_err();
    assert_eq!(err, ContractError::PolicyExpired);
}

#[test]
fn insurance_error_cases() {
    let mut book = InsuranceBook::new();
    let mut transfers = Vec::new();
    assert_eq!(book.purchase_policy(HOLDER, 1, TOKEN, 0, 0, &mut transfers).unwrap_err(), ContractError::InvalidInput);
    assert_eq!(book.file_claim(HOLDER, 9, 10, "x".to_string(), 0).unwrap_err(), ContractError::PolicyNotFound);
    assert_eq!(book.get_claim(3).unwrap_err(), ContractError::ClaimNotFound);
    assert_eq!(book.approve_claim(3, 10, 0, &mut transfers).unwrap_err(), ContractError::ClaimNotFound);
}
