use stellar_grants::contract::StellarGrantsContract;
use stellar_grants::errors::ContractError;
use stellar_grants::events::GrantCompleted;
use stellar_grants::milestones::Milestone;
use stellar_grants::submission::MilestoneSubmission;
use stellar_grants::types::{DecayConfig, DecayType, EscrowLifecycleState, EscrowMode, GrantStatus, MilestoneState, ProtocolConfig};

const OWNER: u64 = 100;
const TOKEN: u64 = 200;
const FUNDER_A: u64 = 301;
const FUNDER_B: u64 = 302;
const REVIEWER: u64 = 400;

fn config() -> ProtocolConfig {
    ProtocolConfig {
        quorum_threshold_bps: 5_001,
        max_reviewers: 10,
        min_stake_amount: 0,
        protocol_fee_bps: 100,
        max_milestones_per_grant: 20,
        dispute_window_ledgers: 17_280,
        max_grant_title_len: 128,
        max_grant_desc_len: 1_024,
        multisig_threshold: 0,
        rate_limit_multiplier: 1,
        referral_fee_bps: 0,
        decay_config: DecayConfig {
            enabled: false,
            decay_type: DecayType::NoDecay,
            half_life_ledgers: 0,
            linear_decay_per_day: 0,
            decay_floor: 0,
            inactivity_threshold_ledgers: 0,
        },
        reviewer_reward_pool_bps: 0,
        fast_bonus_bps: 0,
    }
}

fn create(c: &mut StellarGrantsContract) -> u64 {
    c.grant_create(OWNER, "Grant".to_string(), "Desc".to_string(), TOKEN, 1_000, 400, 2, vec![REVIEWER], 10).unwrap()
}

fn approve(c: &mut StellarGrantsContract, grant_id: u64, idx: u32, amount: i128) {
    c.milestones.set(
        grant_id,
        idx,
        Milestone {
            idx,
            description: "m".to_string(),
            amount,
            state: MilestoneState::Approved,
            votes: Vec::new(),
            approvals: 1,
            rejections: 0,
            reasons: Vec::new(),
            status_updated_at: 0,
            proof_url: None,
            submission_timestamp: 0,
            deadline: None,
            reviewer_count_snapshot: 1,
        },
    );
}

#[test]
fn grant_create_records_the_grant() {
    let mut c = StellarGrantsContract::new(config());
    let id = create(&mut c);
    assert_eq!(id, 1);
    let g = c.get_grant(id).unwrap();
    assert_eq!(g.owner, OWNER);
    assert_eq!(g.status, GrantStatus::Active);
    assert_eq!(g.total_milestones, 2);
    assert_eq!(c.escrow.get_account(id).unwrap().balance, 0);
    let m = c.metrics.get_metrics(10);
    assert_eq!(m.total_grants_created, 1);
    assert_eq!(m.total_grants_active, 1);
    assert_eq!(create(&mut c), 2);
}

#[test]
fn grant_create_checks() {
    let mut c = StellarGrantsContract::new(config());
    let t = || "t".to_string();
    assert_eq!(c.grant_create(OWNER, t(), t(), TOKEN, 0, 1, 1, vec![], 0), Err(ContractError::ZeroAmount));
    assert_eq!(c.grant_create(OWNER, t(), t(), TOKEN, 10, 1, 0, vec![], 0), Err(ContractError::InvalidInput));
    assert_eq!(c.grant_create(OWNER, t(), t(), TOKEN, 10, 1, 21, vec![], 0), Err(ContractError::InvalidInput));
    assert_eq!(c.grant_create(OWNER, t(), t(), TOKEN, 10, 1, 1, (0..11).collect(), 0), Err(ContractError::ReviewerLimitExceeded));
    assert_eq!(c.grant_create(OWNER, t(), t(), TOKEN, 10, 6, 2, vec![], 0), Err(ContractError::InvalidInput));
    assert_eq!(c.grant_create(OWNER, t(), t(), TOKEN, 10, i128::MAX, 2, vec![], 0), Err(ContractError::InvalidInput));
    assert!(c.get_grant(1).is_err());
}

#[test]
fn funding_and_completion_pay_owner_and_refund_rest() {
    let mut c = StellarGrantsContract::new(config());
    let mut t = Vec::new();
    let id = create(&mut c);
    c.grant_fund(id, FUNDER_A, 600, 11, &mut t).unwrap();
    c.grant_fund(id, FUNDER_B, 400, 12, &mut t).unwrap();
    assert_eq!(c.get_grant(id).unwrap().escrow_balance, 1_000);
    assert_eq!(c.metrics.get_token_metrics(TOKEN).total_locked, 1_000);
    assert_eq!(c.grant_complete(id, 20, &mut t), Err(ContractError::NotAllMilestonesApproved));
    approve(&mut c, id, 0, 400);
    approve(&mut c, id, 1, 400);
    let done = c.grant_complete(id, 20, &mut t).unwrap();
    assert_eq!(done, Some(GrantCompleted { grant_id: id, total_paid: 800, remaining_balance: 200, timestamp: 20 }));
    let g = c.get_grant(id).unwrap();
    assert_eq!(g.status, GrantStatus::Completed);
    assert_eq!(g.escrow_balance, 0);
    assert_eq!(g.milestones_paid_out, 2);
    // deposits, then the owner's 800, then the 200 left, split 120 / 80.
    assert_eq!(t.len(), 5);
    assert_eq!((t[2].to, t[2].amount), (OWNER, 800));
    assert_eq!((t[3].to, t[3].amount), (FUNDER_A, 120));
    assert_eq!((t[4].to, t[4].amount), (FUNDER_B, 80));
    assert_eq!(c.escrow.get_account(id).unwrap().balance, 0);
    assert_eq!(c.grant_complete(id, 21, &mut t), Err(ContractError::InvalidState));
    assert_eq!(c.metrics.get_metrics(20).total_grants_completed, 1);
}

#[test]
fn fund_errors_leave_state_unchanged() {
    let mut c = StellarGrantsContract::new(config());
    let mut t = Vec::new();
    assert_eq!(c.grant_fund(1, FUNDER_A, 10, 0, &mut t), Err(ContractError::GrantNotFound));
    let id = create(&mut c);
    assert_eq!(c.grant_fund(id, FUNDER_A, 0, 0, &mut t), Err(ContractError::ZeroAmount));
    assert!(t.is_empty());
}

#[test]
fn cancel_refunds_funders_in_proportion() {
    let mut c = StellarGrantsContract::new(config());
    let mut t = Vec::new();
    let id = create(&mut c);
    c.grant_fund(id, FUNDER_A, 300, 1, &mut t).unwrap();
    c.grant_fund(id, FUNDER_B, 700, 2, &mut t).unwrap();
    assert_eq!(c.cancel_grant(id, FUNDER_A, "no".to_string(), 3, &mut t), Err(ContractError::Unauthorized));
    c.cancel_grant(id, OWNER, "stop".to_string(), 3, &mut t).unwrap();
    let g = c.get_grant(id).unwrap();
    assert_eq!(g.status, GrantStatus::Cancelled);
    assert_eq!(g.escrow_balance, 0);
    assert_eq!(g.reason.as_deref(), Some("stop"));
    assert_eq!(t.len(), 4);
    assert_eq!((t[2].to, t[2].amount), (FUNDER_A, 300));
    assert_eq!((t[3].to, t[3].amount), (FUNDER_B, 700));
    assert_eq!(c.cancel_grant(id, OWNER, "again".to_string(), 4, &mut t), Err(ContractError::InvalidState));
    assert_eq!(c.metrics.get_token_metrics(TOKEN).total_refunded, 1_000);
}

#[test]
fn global_admin_can_cancel() {
    let mut c = StellarGrantsContract::new(config());
    let mut t = Vec::new();
    c.set_global_admin(1, 9).unwrap();
    assert_eq!(c.set_global_admin(1, 8), Err(ContractError::Unauthorized));
    let id = create(&mut c);
    c.cancel_grant(id, 9, "admin".to_string(), 1, &mut t).unwrap();
    assert!(t.is_empty());
}

#[test]
fn high_security_release_waits_for_signers() {
    let mut c = StellarGrantsContract::new(config());
    let mut t = Vec::new();
    let id = c
        .grant_create_high_security(OWNER, "G".to_string(), "D".to_string(), TOKEN, 1_000, 500, 2, vec![], vec![7, 8], 0)
        .unwrap();
    c.grant_fund(id, FUNDER_A, 1_000, 1, &mut t).unwrap();
    approve(&mut c, id, 0, 500);
    approve(&mut c, id, 1, 500);
    assert_eq!(c.grant_complete(id, 2, &mut t), Ok(None));
    assert_eq!(c.escrow_states.get(&id).unwrap().lifecycle, EscrowLifecycleState::AwaitingMultisig);
    assert_eq!(c.sign_release(id, 9, 3, &mut t), Err(ContractError::NotMultisigSigner));
    assert_eq!(c.sign_release(id, 7, 3, &mut t), Ok(None));
    assert_eq!(c.sign_release(id, 7, 3, &mut t), Err(ContractError::AlreadySignedRelease));
    assert_eq!(c.get_grant(id).unwrap().status, GrantStatus::Active);
    assert_eq!(
        c.sign_release(id, 8, 4, &mut t),
        Ok(Some(GrantCompleted { grant_id: id, total_paid: 1_000, remaining_balance: 0, timestamp: 4 }))
    );
    assert_eq!(c.get_grant(id).unwrap().status, GrantStatus::Completed);
    let st = *c.escrow_states.get(&id).unwrap();
    assert_eq!(st.mode, EscrowMode::HighSecurity);
    assert_eq!(st.lifecycle, EscrowLifecycleState::Released);
    assert_eq!(st.approvals_count, 2);
    assert_eq!((t[1].to, t[1].amount), (OWNER, 1_000));
}

#[test]
fn high_security_needs_signers() {
    let mut c = StellarGrantsContract::new(config());
    assert_eq!(
        c.grant_create_high_security(OWNER, "G".to_string(), "D".to_string(), TOKEN, 1_000, 500, 2, vec![], vec![], 0),
        Err(ContractError::InvalidInput)
    );
}

#[test]
fn milestone_submission_rules() {
    let mut c = StellarGrantsContract::new(config());
    let id = create(&mut c);
    assert_eq!(c.milestone_submit(id, 0, 5, "d".to_string(), "p".to_string(), 1), Err(ContractError::Unauthorized));
    assert_eq!(c.milestone_submit(id, 2, OWNER, "d".to_string(), "p".to_string(), 1), Err(ContractError::MilestoneIndexOutOfBounds));
    c.milestone_submit(id, 0, OWNER, "d".to_string(), "p".to_string(), 1).unwrap();
    let m = c.get_milestone(id, 0).unwrap();
    assert_eq!(m.state, MilestoneState::Submitted);
    assert_eq!(m.amount, 400);
    assert_eq!(m.reviewer_count_snapshot, 1);
    assert_eq!(c.milestone_submit(id, 0, OWNER, "d".to_string(), "p".to_string(), 2), Err(ContractError::MilestoneAlreadySubmitted));
    assert_eq!(c.get_milestone(id, 1).unwrap_err(), ContractError::MilestoneNotFound);
    assert_eq!(c.get_milestone(id, 5).unwrap_err(), ContractError::MilestoneIndexOutOfBounds);
}

#[test]
fn batch_submission_is_all_or_nothing() {
    let mut c = StellarGrantsContract::new(config());
    let id = create(&mut c);
    let sub = |idx: u32| MilestoneSubmission { idx, description: "d".to_string(), proof: "p".to_string() };
    assert_eq!(c.milestone_submit_batch(id, OWNER, &vec![], 1), Err(ContractError::BatchEmpty));
    assert_eq!(c.milestone_submit_batch(id, OWNER, &vec![sub(0), sub(0)], 1), Err(ContractError::MilestoneAlreadySubmitted));
    assert!(c.get_milestone(id, 0).is_err());
    c.milestone_submit_batch(id, OWNER, &vec![sub(1), sub(0)], 1).unwrap();
    assert_eq!(c.get_milestone(id, 1).unwrap().state, MilestoneState::Submitted);
}

#[test]
fn rejection_reaches_weighted_majority() {
    let mut c = StellarGrantsContract::new(config());
    let id = c.grant_create(OWNER, "G".to_string(), "D".to_string(), TOKEN, 1_000, 400, 2, vec![REVIEWER, 401, 402], 0).unwrap();
    c.milestone_submit(id, 0, OWNER, "d".to_string(), "p".to_string(), 1).unwrap();
    assert_eq!(c.milestone_reject(id, 0, 999, "x".to_string(), 2), Err(ContractError::Unauthorized));
    assert_eq!(c.milestone_reject(id, 0, REVIEWER, "bad".to_string(), 2), Ok(false));
    assert_eq!(c.milestone_reject(id, 0, REVIEWER, "bad".to_string(), 2), Err(ContractError::AlreadyVoted));
    assert_eq!(c.milestone_reject(id, 0, 401, "worse".to_string(), 3), Ok(true));
    let m = c.get_milestone(id, 0).unwrap();
    assert_eq!(m.state, MilestoneState::Rejected);
    assert_eq!(m.rejections, 2);
    assert_eq!(m.status_updated_at, 3);
    assert_eq!(c.reviewer_reputation_of(REVIEWER), 2);
    assert_eq!(c.reviewer_reputation_of(401), 2);
    assert_eq!(c.reviewer_reputation_of(402), 1);
    assert_eq!(c.milestone_reject(id, 0, 402, "late".to_string(), 4), Err(ContractError::MilestoneNotSubmitted));
}

#[test]
fn contributor_registration() {
    let mut c = StellarGrantsContract::new(config());
    assert_eq!(c.contributor_register(5, "".to_string(), "b".to_string(), vec![], "g".to_string(), 0), Err(ContractError::InvalidInput));
    assert_eq!(c.contributor_register(5, "n".repeat(129), "b".to_string(), vec![], "g".to_string(), 0), Err(ContractError::InvalidInput));
    assert_eq!(c.contributor_register(5, "n".to_string(), "b".repeat(257), vec![], "g".to_string(), 0), Err(ContractError::InvalidInput));
    c.contributor_register(5, "Ann".to_string(), "bio".to_string(), vec!["rust".to_string()], "gh".to_string(), 7).unwrap();
    assert_eq!(c.contributor_register(5, "Ann".to_string(), "bio".to_string(), vec![], "gh".to_string(), 8), Err(ContractError::AlreadyRegistered));
    assert_eq!(c.contributors.get(&5).unwrap().registration_timestamp, 7);
    assert_eq!(c.metrics.get_metrics(8).total_contributors_registered, 1);
    c.update_contributor_reputation(1, 0, 5, 5_000_000_000);
    assert_eq!(c.contributors.get(&5).unwrap().milestones_completed, 1);
    c.update_contributor_reputation(1, 0, 5, 5_000_000_000);
    assert_eq!(c.contributors.get(&5).unwrap().milestones_completed, 1);
}

#[test]
fn reviewer_stakes() {
    let mut c = StellarGrantsContract::new(config());
    let mut t = Vec::new();
    let id = create(&mut c);
    c.set_staking_config(50, 999).unwrap();
    assert_eq!(c.stake_to_review(REVIEWER, id, 10, &mut t), Err(ContractError::InsufficientStake));
    c.stake_to_review(REVIEWER, id, 60, &mut t).unwrap();
    assert_eq!(c.get_reviewer_stake(id, REVIEWER), 60);
    assert_eq!(c.unstake(REVIEWER, id, &mut t), Err(ContractError::InvalidState));
    c.slash_reviewer(id, REVIEWER, &mut t).unwrap();
    assert_eq!(c.get_reviewer_stake(id, REVIEWER), 0);
    assert_eq!((t[1].to, t[1].amount), (999, 60));
    assert_eq!(c.slash_reviewer(id, REVIEWER, &mut t), Err(ContractError::StakeNotFound));
}

#[test]
fn fund_batch_is_all_or_nothing() {
    let mut c = StellarGrantsContract::new(config());
    let mut t = Vec::new();
    let a = create(&mut c);
    let b = create(&mut c);
    assert_eq!(c.fund_batch(FUNDER_A, &vec![(a, 10), (99, 5)], 1, &mut t), Err(ContractError::GrantNotFound));
    assert_eq!(c.get_grant(a).unwrap().escrow_balance, 0);
    assert!(t.is_empty());
    c.fund_batch(FUNDER_A, &vec![(a, 10), (b, 5)], 1, &mut t).unwrap();
    assert_eq!(c.get_grant(a).unwrap().escrow_balance, 10);
    assert_eq!(c.get_grant(b).unwrap().escrow_balance, 5);
    assert_eq!(c.fund_batch(FUNDER_A, &vec![], 1, &mut t), Err(ContractError::BatchEmpty));
}

#[test]
fn refunds_after_cancellation_and_escrow_locks() {
    let mut c = StellarGrantsContract::new(config());
    let mut t = Vec::new();
    let id = create(&mut c);
    c.grant_fund(id, FUNDER_A, 100, 1, &mut t).unwrap();
    assert_eq!(c.refund_funder(FUNDER_A, id, &mut t), Err(ContractError::InvalidState));
    assert_eq!(c.lock_escrow(5, id), Err(ContractError::Unauthorized));
    c.set_global_admin(5, 5).unwrap();
    c.lock_escrow(5, id).unwrap();
    assert!(c.escrow.get_account(id).unwrap().locked);
    c.unlock_escrow(5, id).unwrap();
    assert!(!c.escrow.get_account(id).unwrap().locked);
}

#[test]
fn treasury_is_admin_only() {
    let mut c = StellarGrantsContract::new(config());
    assert_eq!(c.get_treasury(), Err(ContractError::InvalidInput));
    assert_eq!(c.set_treasury(1, 2), Err(ContractError::Unauthorized));
    c.set_global_admin(1, 1).unwrap();
    c.set_treasury(1, 2).unwrap();
    assert_eq!(c.get_treasury(), Ok(2));
}
