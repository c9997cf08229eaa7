use stellar_grants::contract::StellarGrantsContract;
use stellar_grants::errors::ContractError;
use stellar_grants::milestone_extension::{is_overdue, ExtensionBook};
use stellar_grants::milestones::Milestone;
use stellar_grants::types::{DecayConfig, DecayType, ExtensionStatus, MilestoneState, ProtocolConfig};

const OWNER: u64 = 100;
const TOKEN: u64 = 200;
const R1: u64 = 401;
const R2: u64 = 402;
const R3: u64 = 403;

fn config() -> ProtocolConfig {
    ProtocolConfig {
        quorum_threshold_bps: 5_001,
        max_reviewers: 10,
        min_stake_amount: 0,
        protocol_fee_bps: 100,
        max_milestones_per_grant: 20,
        dispute_window_ledgers: 17_280,
        max_grant_title_len: 128,
        max_grant_desc_len: 1_024,
        multisig_threshold: 0,
        rate_limit_multiplier: 1,
        referral_fee_bps: 0,
        decay_config: DecayConfig {
            enabled: false,
            decay_type: DecayType::NoDecay,
            half_life_ledgers: 0,
            linear_decay_per_day: 0,
            decay_floor: 0,
            inactivity_threshold_ledgers: 0,
        },
        reviewer_reward_pool_bps: 0,
        fast_bonus_bps: 0,
    }
}

fn setup(deadline: Option<u64>) -> (StellarGrantsContract, u64) {
    let mut c = StellarGrantsContract::new(config());
    let id = c.grant_create(OWNER, "G".to_string(), "D".to_string(), TOKEN, 1_000, 400, 2, vec![R1, R2, R3], 0).unwrap();
    c.milestones.set(
        id,
        0,
        Milestone {
            idx: 0,
            description: "m".to_string(),
            amount: 400,
            state: MilestoneState::Pending,
            votes: Vec::new(),
            approvals: 0,
            rejections: 0,
            reasons: Vec::new(),
            status_updated_at: 0,
            proof_url: None,
            submission_timestamp: 0,
            deadline,
            reviewer_count_snapshot: 3,
        },
    );
    (c, id)
}

#[test]
fn overdue_only_past_a_deadline() {
    let (c, id) = setup(Some(100));
    assert!(!is_overdue(&c.milestones, id, 0, 100));
    assert!(is_overdue(&c.milestones, id, 0, 101));
    assert!(!is_overdue(&c.milestones, id, 1, 101));
    let (c2, id2) = setup(None);
    assert!(!is_overdue(&c2.milestones, id2, 0, u64::MAX));
}

#[test]
fn majority_approval_moves_the_deadline() {
    let (mut c, id) = setup(Some(100));
    let mut b = ExtensionBook::new();
    b.request_extension(&c.grants, &c.milestones, OWNER, id, 0, 200, "late".to_string(), 50).unwrap();
    let q = b.get_request(id, 0).unwrap();
    assert_eq!((q.original_deadline, q.new_deadline, q.status), (100, 200, ExtensionStatus::Pending));
    assert_eq!(b.vote_extension(&c.grants, &mut c.milestones, R1, id, 0, true, 51), Ok(ExtensionStatus::Pending));
    assert_eq!(b.vote_extension(&c.grants, &mut c.milestones, R1, id, 0, true, 52), Err(ContractError::AlreadyVoted));
    assert_eq!(b.vote_extension(&c.grants, &mut c.milestones, OWNER, id, 0, true, 52), Err(ContractError::Unauthorized));
    assert_eq!(b.vote_extension(&c.grants, &mut c.milestones, R2, id, 0, true, 53), Ok(ExtensionStatus::Approved));
    assert_eq!(c.milestones.get(id, 0).unwrap().deadline, Some(200));
    let q = b.get_request(id, 0).unwrap();
    assert_eq!((q.votes_approve, q.votes_deny, q.resolved_at), (2, 0, Some(53)));
    assert_eq!(
        b.vote_extension(&c.grants, &mut c.milestones, R3, id, 0, false, 54),
        Err(ContractError::ExtensionAlreadyResolved)
    );
    // a resolved request does not block a new one.
    assert!(b.request_extension(&c.grants, &c.milestones, OWNER, id, 0, 300, "again".to_string(), 60).is_ok());
}

#[test]
fn majority_denial_keeps_the_deadline() {
    let (mut c, id) = setup(Some(100));
    let mut b = ExtensionBook::new();
    b.request_extension(&c.grants, &c.milestones, OWNER, id, 0, 200, "late".to_string(), 50).unwrap();
    assert_eq!(b.vote_extension(&c.grants, &mut c.milestones, R1, id, 0, false, 51), Ok(ExtensionStatus::Pending));
    assert_eq!(b.vote_extension(&c.grants, &mut c.milestones, R2, id, 0, true, 52), Ok(ExtensionStatus::Pending));
    assert_eq!(b.vote_extension(&c.grants, &mut c.milestones, R3, id, 0, false, 53), Ok(ExtensionStatus::Denied));
    assert_eq!(c.milestones.get(id, 0).unwrap().deadline, Some(100));
}

#[test]
fn request_checks() {
    let (c, id) = setup(Some(100));
    let mut b = ExtensionBook::new();
    let r = |b: &mut ExtensionBook, who: u64, g: u64, i: u32, d: u64, now: u64| {
        b.request_extension(&c.grants, &c.milestones, who, g, i, d, "x".to_string(), now)
    };
    assert_eq!(r(&mut b, OWNER, 9, 0, 200, 50), Err(ContractError::GrantNotFound));
    assert_eq!(r(&mut b, R1, id, 0, 200, 50), Err(ContractError::Unauthorized));
    assert_eq!(r(&mut b, OWNER, id, 1, 200, 50), Err(ContractError::MilestoneNotFound));
    assert_eq!(r(&mut b, OWNER, id, 0, 100, 50), Err(ContractError::InvalidInput));
    assert_eq!(r(&mut b, OWNER, id, 0, 150, 150), Err(ContractError::InvalidInput));
    assert_eq!(r(&mut b, OWNER, id, 0, 150, 50), Ok(()));
    assert_eq!(r(&mut b, OWNER, id, 0, 160, 50), Err(ContractError::InvalidState));
}

#[test]
fn only_the_requester_withdraws() {
    let (c, id) = setup(Some(100));
    let mut b = ExtensionBook::new();
    assert_eq!(b.withdraw_request(OWNER, id, 0, 1), Err(ContractError::ExtensionRequestNotFound));
    b.request_extension(&c.grants, &c.milestones, OWNER, id, 0, 200, "late".to_string(), 50).unwrap();
    assert_eq!(b.withdraw_request(R1, id, 0, 51), Err(ContractError::Unauthorized));
    b.withdraw_request(OWNER, id, 0, 52).unwrap();
    assert!(b.get_request(id, 0).is_none());
}
