use stellar_grants::constants::CONTRACT_ACCOUNT;
use stellar_grants::contract::StellarGrantsContract;
use stellar_grants::errors::ContractError;
use stellar_grants::escrow::{deposit, refund, refund_all, release};
use stellar_grants::types::{DecayConfig, DecayType, ProtocolConfig};

const OWNER: u64 = 100;
const TOKEN: u64 = 200;

fn config() -> ProtocolConfig {
    ProtocolConfig {
        quorum_threshold_bps: 5_001,
        max_reviewers: 10,
        min_stake_amount: 0,
        protocol_fee_bps: 100,
        max_milestones_per_grant: 20,
        dispute_window_ledgers: 17_280,
        max_grant_title_len: 128,
        max_grant_desc_len: 1_024,
        multisig_threshold: 0,
        rate_limit_multiplier: 1,
        referral_fee_bps: 0,
        decay_config: DecayConfig {
            enabled: false,
            decay_type: DecayType::NoDecay,
            half_life_ledgers: 0,
            linear_decay_per_day: 0,
            decay_floor: 0,
            inactivity_threshold_ledgers: 0,
        },
        reviewer_reward_pool_bps: 0,
        fast_bonus_bps: 0,
    }
}

#[test]
fn full_refund_sends_the_whole_balance() {
    let mut c = StellarGrantsContract::new(config());
    let id = c.grant_create(OWNER, "G".to_string(), "D".to_string(), TOKEN, 1_000, 400, 2, vec![], 0).unwrap();
    let mut t = Vec::new();
    deposit(&mut c.escrow, &mut c.grants, id, 1, 1, 0, &mut t).unwrap();
    deposit(&mut c.escrow, &mut c.grants, id, 2, 1, 0, &mut t).unwrap();
    deposit(&mut c.escrow, &mut c.grants, id, 3, 1, 0, &mut t).unwrap();
    // the last listed funder takes its deposit back, so its net is zero.
    assert_eq!(refund(&mut c.escrow, &mut c.grants, id, 3, &mut t), Ok(1));
    release(&mut c.escrow, &mut c.grants, id, OWNER, 1, &mut t).unwrap();
    assert_eq!(c.escrow.get_account(id).unwrap().balance, 1);
    let before = t.len();
    refund_all(&mut c.escrow, &mut c.grants, id, &mut t).unwrap();
    // each share of the 1 left is 1 * 1 / 2 = 0; the last listed funder gets the remainder.
    assert_eq!(t.len(), before + 1);
    assert_eq!((t[before].from, t[before].to, t[before].amount), (CONTRACT_ACCOUNT, 3, 1));
    assert_eq!(c.escrow.get_account(id).unwrap().balance, 0);
    assert_eq!(c.get_grant(id).unwrap().escrow_balance, 0);
}

#[test]
fn locked_escrow_still_takes_deposits() {
    let mut c = StellarGrantsContract::new(config());
    let id = c.grant_create(OWNER, "G".to_string(), "D".to_string(), TOKEN, 1_000, 400, 2, vec![], 0).unwrap();
    let mut t = Vec::new();
    c.escrow.lock(id).unwrap();
    deposit(&mut c.escrow, &mut c.grants, id, 1, 50, 0, &mut t).unwrap();
    assert_eq!(release(&mut c.escrow, &mut c.grants, id, OWNER, 10, &mut t), Err(ContractError::EscrowLocked));
    c.escrow.unlock(id).unwrap();
    release(&mut c.escrow, &mut c.grants, id, OWNER, 10, &mut t).unwrap();
    assert_eq!(c.escrow.get_account(id).unwrap().balance, 40);
}

#[test]
fn deposit_overflow_is_reported_before_a_missing_grant() {
    let mut c = StellarGrantsContract::new(config());
    let id = c.grant_create(OWNER, "G".to_string(), "D".to_string(), TOKEN, 1_000, 400, 2, vec![], 0).unwrap();
    let mut t = Vec::new();
    deposit(&mut c.escrow, &mut c.grants, id, 1, i128::MAX, 0, &mut t).unwrap();
    c.grants.take(id).unwrap();
    assert_eq!(deposit(&mut c.escrow, &mut c.grants, id, 1, 1, 0, &mut t), Err(ContractError::InvalidInput));
    let mut e = stellar_grants::escrow::EscrowBook::new();
    e.open(7, OWNER, TOKEN).unwrap();
    assert_eq!(deposit(&mut e, &mut c.grants, 7, 1, 5, 0, &mut t), Err(ContractError::GrantNotFound));
    assert_eq!(t.len(), 1);
}
