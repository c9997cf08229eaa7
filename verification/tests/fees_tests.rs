use stellar_grants::errors::ContractError;
use stellar_grants::fees::{basis_points_of, compute_fee};

#[test]
fn test_compute_fee_zero_bps() {
    let result = compute_fee(1_000_000, 0).unwrap();
    assert_eq!(result, 0);
}

#[test]
fn test_compute_fee_one_percent() {
    let result = compute_fee(1_000_000, 100).unwrap();
    assert_eq!(result, 10_000);
}

#[test]
fn test_compute_fee_large_amount() {
    let result = compute_fee(100_000_000, 250).unwrap();
    assert_eq!(result, 2_500_000);
}

#[test]
fn test_compute_fee_negative_gross_returns_zero() {
    let result = compute_fee(-1, 100).unwrap();
    assert_eq!(result, 0);
}

#[test]
fn test_fee_accumulation_across_calls() {
    assert_eq!(compute_fee(1_000_000, 100).unwrap(), 10_000);
    assert_eq!(compute_fee(2_000_000, 100).unwrap(), 20_000);
}

#[test]
fn compute_fee_overflow_is_invalid_input() {
    assert_eq!(compute_fee(i128::MAX, 2), Err(ContractError::InvalidInput));
}

#[test]
fn basis_points_of_truncates_toward_zero() {
    assert_eq!(basis_points_of(-15_000, 1), Ok(-1));
    assert_eq!(basis_points_of(19_999, 1), Ok(1));
    assert_eq!(basis_points_of(i128::MAX, 3), Err(ContractError::InvalidInput));
}

#[test]
fn fee_never_exceeds_gross_at_full_rate() {
    for gross in [1i128, 7, 9_999, 10_000, 123_456_789] {
        for bps in [0u32, 1, 100, 5_000, 10_000] {
            let fee = compute_fee(gross, bps).unwrap();
            assert!(fee >= 0 && fee <= gross);
        }
    }
}

#[test]
fn fee_is_monotone_in_amount() {
    let mut last = 0i128;
    for gross in [0i128, 1, 50, 99, 100, 10_000, 10_001, 1_000_000] {
        let fee = compute_fee(gross, 250).unwrap();
        assert!(fee >= last);
        last = fee;
    }
}
