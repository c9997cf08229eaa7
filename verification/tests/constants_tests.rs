use stellar_grants::constants::{
    BASIS_POINTS_SCALE, DEFAULT_DISPUTE_WINDOW_LEDGERS, DEFAULT_PAGE_SIZE, DEFAULT_PROTOCOL_FEE_BPS,
    DEFAULT_TIMELOCK_DELAY_LEDGERS, LEDGERS_PER_DAY, MAX_BATCH_SIZE, MAX_GRANT_AMOUNT, MAX_MILESTONES_PER_GRANT,
    MAX_PAGE_SIZE, MAX_PROTOCOL_FEE_BPS, MAX_REVIEWERS_PER_GRANT, MIN_GRANT_AMOUNT, MIN_REVIEWERS_PER_GRANT,
};

#[test]
fn test_fee_invariants() {
    assert!(DEFAULT_PROTOCOL_FEE_BPS <= MAX_PROTOCOL_FEE_BPS);
    assert!(MAX_PROTOCOL_FEE_BPS <= BASIS_POINTS_SCALE);
}

#[test]
fn test_page_size_invariants() {
    assert!(DEFAULT_PAGE_SIZE <= MAX_PAGE_SIZE);
    assert!(MAX_PAGE_SIZE > 0);
}

#[test]
fn test_batch_milestone_invariants() {
    assert!(MAX_BATCH_SIZE <= MAX_MILESTONES_PER_GRANT);
    assert!(MAX_BATCH_SIZE > 0);
}

#[test]
fn test_reviewer_count_invariants() {
    assert!(MIN_REVIEWERS_PER_GRANT <= MAX_REVIEWERS_PER_GRANT);
}

#[test]
fn test_ledger_timing_invariants() {
    assert!(DEFAULT_DISPUTE_WINDOW_LEDGERS <= DEFAULT_TIMELOCK_DELAY_LEDGERS);
    assert_eq!(LEDGERS_PER_DAY, DEFAULT_DISPUTE_WINDOW_LEDGERS);
}

#[test]
fn test_amount_invariants() {
    assert!(MIN_GRANT_AMOUNT > 0);
    assert!(MAX_GRANT_AMOUNT > MIN_GRANT_AMOUNT);
}
