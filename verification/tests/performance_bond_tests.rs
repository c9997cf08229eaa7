use stellar_grants::batch::try_fund_grant;
use stellar_grants::constants::CONTRACT_ACCOUNT;
use stellar_grants::contract::StellarGrantsContract;
use stellar_grants::errors::ContractError;
use stellar_grants::performance_bond::BondBook;
use stellar_grants::types::{BondStatus, DecayConfig, DecayType, ProtocolConfig};

const OWNER: u64 = 100;
const TOKEN: u64 = 200;
const FUNDER: u64 = 301;
const GUARANTOR: u64 = 600;

fn config() -> ProtocolConfig {
    ProtocolConfig {
        quorum_threshold_bps: 5_001,
        max_reviewers: 10,
        min_stake_amount: 0,
        protocol_fee_bps: 100,
        max_milestones_per_grant: 20,
        dispute_window_ledgers: 17_280,
        max_grant_title_len: 128,
        max_grant_desc_len: 1_024,
        multisig_threshold: 0,
        rate_limit_multiplier: 1,
        referral_fee_bps: 0,
        decay_config: DecayConfig {
            enabled: false,
            decay_type: DecayType::NoDecay,
            half_life_ledgers: 0,
            linear_decay_per_day: 0,
            decay_floor: 0,
            inactivity_threshold_ledgers: 0,
        },
        reviewer_reward_pool_bps: 0,
        fast_bonus_bps: 0,
    }
}

fn setup() -> (StellarGrantsContract, u64) {
    let mut c = StellarGrantsContract::new(config());
    let id = c.grant_create(OWNER, "G".to_string(), "D".to_string(), TOKEN, 1_000, 400, 2, vec![], 0).unwrap();
    let mut t = Vec::new();
    try_fund_grant(&mut c.grants, FUNDER, TOKEN, id, 100, &mut t).unwrap();
    (c, id)
}

#[test]
fn bond_lifecycle_post_then_release() {
    let (c, id) = setup();
    let mut b = BondBook::new();
    let mut t = Vec::new();
    assert_eq!(b.require_bond(&c.grants, FUNDER, id, TOKEN, 50, 100, 10), Err(ContractError::Unauthorized));
    assert_eq!(b.require_bond(&c.grants, OWNER, 9, TOKEN, 50, 100, 10), Err(ContractError::GrantNotFound));
    assert_eq!(b.require_bond(&c.grants, OWNER, id, TOKEN, 0, 100, 10), Err(ContractError::InvalidInput));
    let bond_id = b.require_bond(&c.grants, OWNER, id, TOKEN, 50, 100, 10).unwrap();
    assert_eq!(bond_id, 1);
    assert_eq!(b.require_bond(&c.grants, OWNER, id, TOKEN, 50, 100, 10), Err(ContractError::AlreadyRegistered));
    let bond = b.get_bond(id).unwrap();
    assert_eq!((bond.status, bond.expires_at, bond.guarantor), (BondStatus::Pending, 110, OWNER));
    assert!(!b.has_active_bond(id));
    assert_eq!(b.release_bond(id, &mut t), Err(ContractError::BondNotActive));

    assert_eq!(b.post_bond(GUARANTOR, 7, 20, &mut t), Err(ContractError::BondNotFound));
    b.post_bond(GUARANTOR, bond_id, 20, &mut t).unwrap();
    assert_eq!(b.post_bond(GUARANTOR, bond_id, 21, &mut t), Err(ContractError::BondAlreadyPosted));
    assert!(b.has_active_bond(id));
    assert_eq!((t[0].from, t[0].to, t[0].amount), (GUARANTOR, CONTRACT_ACCOUNT, 50));
    b.release_bond(id, &mut t).unwrap();
    assert_eq!(b.get_bond(id).unwrap().status, BondStatus::Released);
    assert_eq!((t[1].from, t[1].to, t[1].amount), (CONTRACT_ACCOUNT, GUARANTOR, 50));
    // a grant without a bond releases nothing.
    assert_eq!(b.release_bond(9, &mut t), Ok(()));
    assert_eq!(t.len(), 2);
}

#[test]
fn a_bond_expires_unposted() {
    let (c, id) = setup();
    let mut b = BondBook::new();
    let mut t = Vec::new();
    let bond_id = b.require_bond(&c.grants, OWNER, id, TOKEN, 50, 100, 10).unwrap();
    assert_eq!(b.post_bond(GUARANTOR, bond_id, 111, &mut t), Err(ContractError::BondExpired));
    assert!(t.is_empty());
}

#[test]
fn funders_claim_after_cancellation() {
    let (mut c, id) = setup();
    let mut b = BondBook::new();
    let mut t = Vec::new();
    let bond_id = b.require_bond(&c.grants, OWNER, id, TOKEN, 50, 100, 10).unwrap();
    b.post_bond(GUARANTOR, bond_id, 20, &mut t).unwrap();
    let claim = |b: &mut BondBook, c: &StellarGrantsContract, who: u64, now: u64, t: &mut Vec<_>| {
        b.claim_bond(&c.grants, who, id, "gone".to_string(), now, t).map(|x| (x.bond_id, x.claimed_by, x.payout_amount))
    };
    assert_eq!(claim(&mut b, &c, OWNER, 30, &mut t), Err(ContractError::Unauthorized));
    assert_eq!(claim(&mut b, &c, FUNDER, 30, &mut t), Err(ContractError::InvalidState));
    let mut refunds = Vec::new();
    c.cancel_grant(id, OWNER, "stop".to_string(), 31, &mut refunds).unwrap();
    assert_eq!(claim(&mut b, &c, FUNDER, 32, &mut t), Ok((bond_id, FUNDER, 50)));
    assert_eq!(b.get_bond(id).unwrap().status, BondStatus::Claimed);
    let last = t.last().unwrap();
    assert_eq!((last.from, last.to, last.amount), (CONTRACT_ACCOUNT, FUNDER, 50));
    assert_eq!(claim(&mut b, &c, FUNDER, 33, &mut t), Err(ContractError::BondNotActive));
}

#[test]
fn funders_claim_after_expiry() {
    let (c, id) = setup();
    let mut b = BondBook::new();
    let mut t = Vec::new();
    let bond_id = b.require_bond(&c.grants, OWNER, id, TOKEN, 50, 100, 10).unwrap();
    b.post_bond(GUARANTOR, bond_id, 20, &mut t).unwrap();
    assert!(b.claim_bond(&c.grants, FUNDER, id, "late".to_string(), 110, &mut t).is_err());
    assert!(b.claim_bond(&c.grants, FUNDER, id, "late".to_string(), 111, &mut t).is_ok());
}
