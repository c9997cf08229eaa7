use stellar_grants::dispute::{arbiter_vote, resolve_dispute, Dispute, DisputeBook};
use stellar_grants::errors::ContractError;
use stellar_grants::grants::{Grant, GrantFund};
use stellar_grants::types::{DisputeStatus, GrantStatus};

fn make_grant(owner: u64) -> Grant {
    Grant {
        id: 1,
        owner,
        title: "T".to_string(),
        description: "D".to_string(),
        token: 99,
        status: GrantStatus::Active,
        total_amount: 1000,
        milestone_amount: 500,
        reviewers: Vec::new(),
        total_milestones: 2,
        milestones_paid_out: 0,
        escrow_balance: 0,
        funders: Vec::new(),
        reason: None,
        timestamp: 0,
        require_compliance: None,
    }
}

fn make_dispute(owner: u64, status: DisputeStatus, arbiters: Vec<u64>, vc: u32, vf: u32) -> Dispute {
    Dispute {
        grant_id: 1,
        milestone_idx: 0,
        raised_by: owner,
        reason: "reason".to_string(),
        status,
        arbiters,
        votes_contributor: vc,
        votes_funder: vf,
        raised_at: 0,
        resolved_at: None,
    }
}

#[test]
fn test_raise_dispute_unauthorized() {
    let owner = 1u64;
    let stranger = 2u64;
    let grant = make_grant(owner);
    let mut book = DisputeBook::new();
    let result = book.raise_dispute(&grant, 0, stranger, "Proof is invalid".to_string(), 0);
    assert_eq!(result.unwrap_err(), ContractError::Unauthorized);
}

#[test]
fn test_arbiter_quorum_not_reached_returns_error() {
    let owner = 1u64;
    let mut grant = make_grant(owner);
    let mut dispute = make_dispute(owner, DisputeStatus::UnderReview, Vec::new(), 1, 1);
    let mut transfers = Vec::new();
    let result = resolve_dispute(&mut grant, &mut dispute, Some(500), 0, &mut transfers);
    assert_eq!(result, Err(ContractError::QuorumNotReached));
}

#[test]
fn test_resolve_dispute_wrong_status_rejected() {
    let owner = 1u64;
    let mut grant = make_grant(owner);
    let mut dispute = make_dispute(owner, DisputeStatus::Open, Vec::new(), 3, 0);
    let mut transfers = Vec::new();
    let result = resolve_dispute(&mut grant, &mut dispute, Some(500), 0, &mut transfers);
    assert_eq!(result, Err(ContractError::InvalidState));
}

#[test]
fn test_arbiter_vote_on_wrong_status_rejected() {
    let owner = 1u64;
    let arbiter = 3u64;
    let mut dispute = make_dispute(owner, DisputeStatus::Open, vec![arbiter], 0, 0);
    let result = arbiter_vote(&mut dispute, arbiter, true);
    assert_eq!(result, Err(ContractError::InvalidState));
}

#[test]
fn test_arbiter_vote_by_non_arbiter_rejected() {
    let owner = 1u64;
    let stranger = 2u64;
    let mut dispute = make_dispute(owner, DisputeStatus::UnderReview, Vec::new(), 0, 0);
    let result = arbiter_vote(&mut dispute, stranger, true);
    assert_eq!(result, Err(ContractError::Unauthorized));
}

#[test]
fn funder_win_returns_milestone_to_funders_in_proportion() {
    let owner = 1u64;
    let mut grant = make_grant(owner);
    grant.escrow_balance = 1000;
    grant.funders = vec![GrantFund { funder: 10, amount: 300 }, GrantFund { funder: 11, amount: 700 }];
    let mut dispute = make_dispute(owner, DisputeStatus::UnderReview, Vec::new(), 0, 3);
    let mut transfers = Vec::new();
    let result = resolve_dispute(&mut grant, &mut dispute, Some(500), 7, &mut transfers);
    assert_eq!(result, Ok(DisputeStatus::ResolvedForFunder));
    assert_eq!(transfers.len(), 2);
    assert_eq!(transfers[0].to, 10);
    assert_eq!(transfers[0].amount, 150);
    assert_eq!(transfers[1].to, 11);
    assert_eq!(transfers[1].amount, 350);
    assert_eq!(grant.escrow_balance, 500);
    assert_eq!(dispute.status, DisputeStatus::ResolvedForFunder);
}

#[test]
fn contributor_win_pays_the_owner() {
    let owner = 1u64;
    let mut grant = make_grant(owner);
    grant.escrow_balance = 1000;
    let mut dispute = make_dispute(owner, DisputeStatus::UnderReview, Vec::new(), 2, 1);
    let mut transfers = Vec::new();
    assert_eq!(resolve_dispute(&mut grant, &mut dispute, Some(500), 7, &mut transfers), Ok(DisputeStatus::ResolvedForContributor));
    assert_eq!(transfers.len(), 1);
    assert_eq!(transfers[0].to, owner);
    assert_eq!(transfers[0].amount, 500);
    assert_eq!(grant.escrow_balance, 500);
    assert_eq!(dispute.resolved_at, Some(7));
}
