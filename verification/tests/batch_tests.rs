use stellar_grants::batch::{batch_cancel_grants, batch_fund_grants, try_fund_grant, validate_batch_size};
use stellar_grants::constants::CONTRACT_ACCOUNT;
use stellar_grants::contract::StellarGrantsContract;
use stellar_grants::errors::ContractError;
use stellar_grants::types::{DecayConfig, DecayType, GrantStatus, ProtocolConfig};

const OWNER: u64 = 100;
const TOKEN: u64 = 200;
const OTHER_TOKEN: u64 = 201;
const FUNDER: u64 = 301;

fn config() -> ProtocolConfig {
    ProtocolConfig {
        quorum_threshold_bps: 5_001,
        max_reviewers: 10,
        min_stake_amount: 0,
        protocol_fee_bps: 100,
        max_milestones_per_grant: 20,
        dispute_window_ledgers: 17_280,
        max_grant_title_len: 128,
        max_grant_desc_len: 1_024,
        multisig_threshold: 0,
        rate_limit_multiplier: 1,
        referral_fee_bps: 0,
        decay_config: DecayConfig {
            enabled: false,
            decay_type: DecayType::NoDecay,
            half_life_ledgers: 0,
            linear_decay_per_day: 0,
            decay_floor: 0,
            inactivity_threshold_ledgers: 0,
        },
        reviewer_reward_pool_bps: 0,
        fast_bonus_bps: 0,
    }
}

fn create(c: &mut StellarGrantsContract, token: u64) -> u64 {
    c.grant_create(OWNER, "Grant".to_string(), "Desc".to_string(), token, 1_000, 400, 2, vec![], 0).unwrap()
}

#[test]
fn batch_size_limits() {
    assert_eq!(validate_batch_size(0), Err(ContractError::BatchEmpty));
    assert_eq!(validate_batch_size(1), Ok(()));
    assert_eq!(validate_batch_size(10), Ok(()));
    assert_eq!(validate_batch_size(11), Err(ContractError::BatchTooLarge));
}

#[test]
fn batch_fund_reports_each_item() {
    let mut c = StellarGrantsContract::new(config());
    let a = create(&mut c, TOKEN);
    let b = create(&mut c, TOKEN);
    let other = create(&mut c, OTHER_TOKEN);
    let mut t = Vec::new();
    let items = vec![(a, 100), (b, 0), (99, 5), (other, 7), (b, 50)];
    let out = batch_fund_grants(&mut c.grants, FUNDER, TOKEN, &items, &mut t).unwrap();
    assert_eq!(out.summary.total, 5);
    assert_eq!(out.summary.successful, 2);
    assert_eq!(out.summary.failed, 3);
    assert!(out.results[0].success);
    assert_eq!(out.results[1].error_code, Some(ContractError::InvalidInput.code()));
    assert_eq!(out.results[2].error_code, Some(ContractError::GrantNotFound.code()));
    assert_eq!(out.results[3].error_code, Some(ContractError::InvalidInput.code()));
    assert!(out.results[4].success);
    assert_eq!(out.results[4].index, 4);
    assert_eq!(t.len(), 2);
    assert_eq!((t[0].from, t[0].to, t[0].amount), (FUNDER, CONTRACT_ACCOUNT, 100));
    assert_eq!((t[1].token, t[1].amount), (TOKEN, 50));
    assert_eq!(c.get_grant(a).unwrap().escrow_balance, 100);
    assert_eq!(c.get_grant(b).unwrap().escrow_balance, 50);
    assert_eq!(c.get_grant(b).unwrap().funders[0].amount, 50);
    assert_eq!(c.get_grant(other).unwrap().escrow_balance, 0);
}

#[test]
fn batch_fund_rejects_empty_and_oversized() {
    let mut c = StellarGrantsContract::new(config());
    let a = create(&mut c, TOKEN);
    let mut t = Vec::new();
    assert!(matches!(batch_fund_grants(&mut c.grants, FUNDER, TOKEN, &vec![], &mut t), Err(ContractError::BatchEmpty)));
    let many: Vec<(u64, i128)> = (0..11).map(|_| (a, 1)).collect();
    assert!(matches!(batch_fund_grants(&mut c.grants, FUNDER, TOKEN, &many, &mut t), Err(ContractError::BatchTooLarge)));
    assert!(t.is_empty());
    assert_eq!(c.get_grant(a).unwrap().escrow_balance, 0);
}

#[test]
fn single_fund_accumulates_the_funder_entry() {
    let mut c = StellarGrantsContract::new(config());
    let a = create(&mut c, TOKEN);
    let mut t = Vec::new();
    try_fund_grant(&mut c.grants, FUNDER, TOKEN, a, 30, &mut t).unwrap();
    try_fund_grant(&mut c.grants, FUNDER, TOKEN, a, 12, &mut t).unwrap();
    let g = c.get_grant(a).unwrap();
    assert_eq!(g.escrow_balance, 42);
    assert_eq!(g.funders.len(), 1);
    assert_eq!(g.funders[0].amount, 42);
    assert_eq!(try_fund_grant(&mut c.grants, FUNDER, OTHER_TOKEN, a, 1, &mut t), Err(ContractError::InvalidInput));
}

#[test]
fn batch_cancel_refunds_and_reports() {
    let mut c = StellarGrantsContract::new(config());
    let a = create(&mut c, TOKEN);
    let b = create(&mut c, TOKEN);
    let mut t = Vec::new();
    try_fund_grant(&mut c.grants, FUNDER, TOKEN, a, 90, &mut t).unwrap();
    try_fund_grant(&mut c.grants, 302, TOKEN, a, 10, &mut t).unwrap();
    let reason = "wind down".to_string();
    let out = batch_cancel_grants(&mut c.grants, OWNER, None, &vec![a, 99, b], &reason, 7, &mut t).unwrap();
    assert_eq!(out.summary.successful, 2);
    assert_eq!(out.summary.failed, 1);
    assert_eq!(out.results[1].error_code, Some(ContractError::GrantNotFound.code()));
    let g = c.get_grant(a).unwrap();
    assert_eq!(g.status, GrantStatus::Cancelled);
    assert_eq!(g.escrow_balance, 0);
    assert_eq!(g.reason.as_deref(), Some("wind down"));
    assert_eq!(c.get_grant(b).unwrap().status, GrantStatus::Cancelled);
    // two deposits, then the two refunds in funding order.
    assert_eq!(t.len(), 4);
    assert_eq!((t[2].from, t[2].to, t[2].amount), (CONTRACT_ACCOUNT, FUNDER, 90));
    assert_eq!((t[3].to, t[3].amount), (302, 10));
    let again = batch_cancel_grants(&mut c.grants, OWNER, None, &vec![a], &reason, 8, &mut t).unwrap();
    assert_eq!(again.results[0].error_code, Some(ContractError::InvalidState.code()));
}

#[test]
fn batch_cancel_needs_owner_or_admin() {
    let mut c = StellarGrantsContract::new(config());
    let a = create(&mut c, TOKEN);
    let mut t = Vec::new();
    let reason = "r".to_string();
    let out = batch_cancel_grants(&mut c.grants, FUNDER, None, &vec![a], &reason, 1, &mut t).unwrap();
    assert_eq!(out.results[0].error_code, Some(ContractError::Unauthorized.code()));
    let out = batch_cancel_grants(&mut c.grants, FUNDER, Some(FUNDER), &vec![a], &reason, 1, &mut t).unwrap();
    assert!(out.results[0].success);
}
