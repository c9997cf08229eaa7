use stellar_grants::contract::StellarGrantsContract;
use stellar_grants::errors::ContractError;
use stellar_grants::fork::{fork_grant, ForkBook, ForkField, MAX_FORK_DEPTH};
use stellar_grants::types::{DecayConfig, DecayType, ProtocolConfig};

const OWNER: u64 = 100;
const TOKEN: u64 = 200;
const FORKER: u64 = 500;
const REVIEWER: u64 = 400;

fn config() -> ProtocolConfig {
    ProtocolConfig {
        quorum_threshold_bps: 5_001,
        max_reviewers: 10,
        min_stake_amount: 0,
        protocol_fee_bps: 100,
        max_milestones_per_grant: 20,
        dispute_window_ledgers: 17_280,
        max_grant_title_len: 128,
        max_grant_desc_len: 1_024,
        multisig_threshold: 0,
        rate_limit_multiplier: 1,
        referral_fee_bps: 0,
        decay_config: DecayConfig {
            enabled: false,
            decay_type: DecayType::NoDecay,
            half_life_ledgers: 0,
            linear_decay_per_day: 0,
            decay_floor: 0,
            inactivity_threshold_ledgers: 0,
        },
        reviewer_reward_pool_bps: 0,
        fast_bonus_bps: 0,
    }
}

fn fork(c: &mut StellarGrantsContract, forks: &mut ForkBook, original: u64, inherit: bool) -> Result<u64, ContractError> {
    fork_grant(c, forks, FORKER, original, "Fork".to_string(), "Fork desc".to_string(), 2_000, 201, inherit, true, 50)
}

#[test]
fn fork_creates_a_grant_and_records_its_origin() {
    let mut c = StellarGrantsContract::new(config());
    let mut forks = ForkBook::new();
    let orig = c.grant_create(OWNER, "G".to_string(), "D".to_string(), TOKEN, 1_000, 400, 2, vec![REVIEWER], 0).unwrap();
    let id = fork(&mut c, &mut forks, orig, true).unwrap();
    assert_eq!(id, orig + 1);
    let g = c.get_grant(id).unwrap();
    assert_eq!(g.owner, FORKER);
    assert_eq!(g.token, 201);
    assert_eq!(g.total_milestones, 2);
    assert_eq!(g.milestone_amount, 400);
    assert_eq!(g.reviewers, vec![REVIEWER]);
    let rec = forks.get_fork_record(id).unwrap();
    assert_eq!(rec.original_grant_id, orig);
    assert_eq!(rec.forked_by, FORKER);
    assert_eq!(rec.forked_at, 50);
    assert_eq!(rec.inherited_fields, vec![ForkField::Reviewers, ForkField::Milestones]);
    assert_eq!(rec.overridden_fields, vec![ForkField::Title, ForkField::Description, ForkField::TotalAmount, ForkField::Token]);
    assert_eq!(forks.get_forks(orig), vec![id]);
    assert!(forks.get_fork_record(orig).is_none());
    assert_eq!(forks.fork_depth(orig), 0);
    assert_eq!(forks.fork_depth(id), 1);
    assert!(forks.is_descendant(orig, id));
    assert!(!forks.is_descendant(id, orig));
}

#[test]
fn fork_without_reviewers_starts_empty() {
    let mut c = StellarGrantsContract::new(config());
    let mut forks = ForkBook::new();
    let orig = c.grant_create(OWNER, "G".to_string(), "D".to_string(), TOKEN, 1_000, 400, 2, vec![REVIEWER], 0).unwrap();
    let id = fork(&mut c, &mut forks, orig, false).unwrap();
    assert!(c.get_grant(id).unwrap().reviewers.is_empty());
    assert_eq!(forks.get_fork_record(id).unwrap().inherited_fields, vec![ForkField::Milestones]);
}

#[test]
fn fork_chains_stop_at_the_depth_limit() {
    let mut c = StellarGrantsContract::new(config());
    let mut forks = ForkBook::new();
    let root = c.grant_create(OWNER, "G".to_string(), "D".to_string(), TOKEN, 1_000, 400, 2, vec![], 0).unwrap();
    let mut last = root;
    for depth in 1..=MAX_FORK_DEPTH {
        last = fork(&mut c, &mut forks, last, false).unwrap();
        assert_eq!(forks.fork_depth(last), depth);
    }
    assert_eq!(fork(&mut c, &mut forks, last, false), Err(ContractError::InvalidInput));
    assert!(forks.is_descendant(root, last));
    // a sibling at a lower depth can still be forked.
    assert!(fork(&mut c, &mut forks, root, false).is_ok());
}

#[test]
fn fork_refuses_missing_and_cancelled_grants() {
    let mut c = StellarGrantsContract::new(config());
    let mut forks = ForkBook::new();
    let mut t = Vec::new();
    assert_eq!(fork(&mut c, &mut forks, 7, false), Err(ContractError::GrantNotFound));
    let orig = c.grant_create(OWNER, "G".to_string(), "D".to_string(), TOKEN, 1_000, 400, 2, vec![], 0).unwrap();
    c.cancel_grant(orig, OWNER, "x".to_string(), 1, &mut t).unwrap();
    assert_eq!(fork(&mut c, &mut forks, orig, false), Err(ContractError::InvalidState));
    assert!(forks.get_forks(orig).is_empty());
}

#[test]
fn fork_checks_the_new_total() {
    let mut c = StellarGrantsContract::new(config());
    let mut forks = ForkBook::new();
    let orig = c.grant_create(OWNER, "G".to_string(), "D".to_string(), TOKEN, 1_000, 400, 2, vec![], 0).unwrap();
    let r = fork_grant(&mut c, &mut forks, FORKER, orig, "F".to_string(), "D".to_string(), 0, TOKEN, false, true, 1);
    assert_eq!(r, Err(ContractError::ZeroAmount));
    assert!(c.get_grant(orig + 1).is_err());
}
