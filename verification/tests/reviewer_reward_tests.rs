use stellar_grants::errors::ContractError;
use stellar_grants::reviewer_reward::{ReviewerRewardRecord, RewardBook};

#[test]
fn test_fund_pool() {
    let mut book = RewardBook::new();
    let token = 77u64;

    book.fund_pool(token, 1000);
    assert_eq!(book.pool_balance(token), 1000);

    book.fund_pool(token, 500);
    assert_eq!(book.pool_balance(token), 1500);
}

#[test]
fn test_record_participation() {
    let mut book = RewardBook::new();
    let reviewer = 1u64;

    book.record_participation(reviewer, 1, false, 10);
    let part = book.get_participation(reviewer, 1).expect("Participation should exist");
    assert_eq!(part.votes_cast, 1);
    assert_eq!(part.fast_votes, 0);

    book.record_participation(reviewer, 1, true, 20);
    let part = book.get_participation(reviewer, 1).expect("Participation should exist");
    assert_eq!(part.votes_cast, 2);
    assert_eq!(part.fast_votes, 1);
}

#[test]
fn test_fast_vote_bonus() {
    let mut book = RewardBook::new();
    let reviewer1 = 1u64;
    let reviewer2 = 2u64;

    book.record_participation(reviewer1, 1, false, 10);
    book.record_participation(reviewer2, 1, true, 10);

    let part1 = book.get_participation(reviewer1, 1).expect("Should exist");
    let part2 = book.get_participation(reviewer2, 1).expect("Should exist");

    assert_eq!(part1.fast_votes, 0);
    assert_eq!(part2.fast_votes, 1);
    assert!(part2.last_vote_at >= part1.last_vote_at);
}

#[test]
fn test_claim_rewards_partial() {
    let mut book = RewardBook::new();
    let reviewer = 1u64;
    let token = 77u64;

    book.fund_pool(token, 100);
    book.set_reward_record(ReviewerRewardRecord {
        reviewer,
        token,
        pending_amount: 200,
        total_earned: 200,
        last_claimed_at: None,
    });

    assert!(book.pool_balance(token) == 100);
}

#[test]
fn test_get_reward_record() {
    let mut book = RewardBook::new();
    let reviewer = 1u64;
    let token = 77u64;

    assert_eq!(book.get_reward_record(reviewer, token), None);

    book.set_reward_record(ReviewerRewardRecord {
        reviewer,
        token,
        pending_amount: 500,
        total_earned: 1000,
        last_claimed_at: None,
    });

    let retrieved = book.get_reward_record(reviewer, token).expect("Should exist");
    assert_eq!(retrieved.pending_amount, 500);
    assert_eq!(retrieved.total_earned, 1000);
}

#[test]
fn test_multiple_reviewers() {
    let mut book = RewardBook::new();
    let reviewer1 = 1u64;
    let reviewer2 = 2u64;
    let token = 77u64;

    book.fund_pool(token, 500);
    book.fund_pool(token, 300);

    assert_eq!(book.pool_balance(token), 800);

    book.record_participation(reviewer1, 1, true, 5);
    book.record_participation(reviewer2, 1, false, 5);

    let part1 = book.get_participation(reviewer1, 1).expect("Should exist");
    let part2 = book.get_participation(reviewer2, 1).expect("Should exist");

    assert_eq!(part1.fast_votes, 1);
    assert_eq!(part2.fast_votes, 0);
}

#[test]
fn claim_is_capped_by_the_pool() {
    let mut book = RewardBook::new();
    let mut transfers = Vec::new();
    book.fund_pool(77, 100);
    book.set_reward_record(ReviewerRewardRecord { reviewer: 1, token: 77, pending_amount: 200, total_earned: 200, last_claimed_at: None });
    let paid = book.claim_rewards(1, 77, 9, &mut transfers).unwrap();
    assert_eq!(paid, 100);
    assert_eq!(book.pool_balance(77), 0);
    assert_eq!(book.get_reward_record(1, 77).unwrap().pending_amount, 100);
    assert_eq!(transfers.len(), 1);
    assert_eq!(transfers[0].amount, 100);
}

#[test]
fn claim_without_record_is_refused() {
    let mut book = RewardBook::new();
    let mut transfers = Vec::new();
    assert_eq!(book.claim_rewards(1, 77, 9, &mut transfers), Err(ContractError::InvalidInput));
}
