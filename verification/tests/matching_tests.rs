use stellar_grants::matching::{isqrt, MatchingContribution, MatchingRound};
use stellar_grants::types::MatchingAllocation;

#[test]
fn test_isqrt_zero() {
    assert_eq!(isqrt(0), 0);
}

#[test]
fn test_isqrt_one() {
    assert_eq!(isqrt(1), 1);
}

#[test]
fn test_isqrt_four() {
    assert_eq!(isqrt(4), 2);
}

#[test]
fn test_isqrt_nine() {
    assert_eq!(isqrt(9), 3);
}

#[test]
fn test_isqrt_sixteen() {
    assert_eq!(isqrt(16), 4);
}

#[test]
fn test_isqrt_hundred() {
    assert_eq!(isqrt(100), 10);
}

#[test]
fn test_isqrt_perfect_squares() {
    for i in 0..100 {
        let square = i * i;
        assert_eq!(isqrt(square), i);
    }
}

#[test]
fn test_isqrt_non_perfect_squares() {
    assert_eq!(isqrt(2), 1);
    assert_eq!(isqrt(3), 1);
    assert_eq!(isqrt(5), 2);
    assert_eq!(isqrt(8), 2);
    assert_eq!(isqrt(15), 3);
    assert_eq!(isqrt(26), 5);
}

#[test]
fn test_isqrt_negative() {
    assert_eq!(isqrt(-1), 0);
    assert_eq!(isqrt(-100), 0);
}

#[test]
fn test_isqrt_large() {
    assert_eq!(isqrt(1_000_000), 1_000);
    assert_eq!(isqrt(1_000_000_000_000), 1_000_000);
}

#[test]
fn isqrt_of_largest_value_is_its_floor_root() {
    let r = isqrt(i128::MAX);
    assert_eq!(r, 13_043_817_825_332_782_212);
    assert!(r * r <= i128::MAX);
    assert!((r + 1).checked_mul(r + 1).is_none());
}

#[test]
fn test_matching_allocation_structure() {
    let allocation = MatchingAllocation {
        grant_id: 1,
        direct_contributions: 1000,
        match_amount: 500,
        unique_contributors: 5,
        qf_score: 250,
    };

    assert_eq!(allocation.grant_id, 1);
    assert_eq!(allocation.direct_contributions, 1000);
    assert_eq!(allocation.match_amount, 500);
    assert_eq!(allocation.unique_contributors, 5);
    assert_eq!(allocation.qf_score, 250);
}

#[test]
fn test_matching_contribution_structure() {
    let contributor = 42u64;

    let contribution = MatchingContribution { contributor, grant_id: 1, amount: 500, contributed_at: 1000 };

    assert_eq!(contribution.grant_id, 1);
    assert_eq!(contribution.amount, 500);
    assert_eq!(contribution.contributed_at, 1000);
}

#[test]
fn test_matching_round_structure() {
    let admin = 7u64;
    let token = 9u64;
    let grant_ids = vec![1u64, 2u64, 3u64];

    let round = MatchingRound {
        id: 1,
        token,
        matching_pool: 10_000,
        start_ledger: 100,
        end_ledger: 1000,
        eligible_grant_ids: grant_ids,
        allocations: Vec::new(),
        finalized: false,
        distributed: false,
        created_by: admin,
    };

    assert_eq!(round.id, 1);
    assert_eq!(round.matching_pool, 10_000);
    assert!(!round.finalized);
    assert!(!round.distributed);
}
