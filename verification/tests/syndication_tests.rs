use stellar_grants::constants::CONTRACT_ACCOUNT;
use stellar_grants::contract::StellarGrantsContract;
use stellar_grants::errors::ContractError;
use stellar_grants::syndication::SyndicateBook;
use stellar_grants::types::{DecayConfig, DecayType, ProtocolConfig, SyndicateStatus};

const LEAD: u64 = 100;
const TOKEN: u64 = 200;
const M1: u64 = 301;
const M2: u64 = 302;

fn config() -> ProtocolConfig {
    ProtocolConfig {
        quorum_threshold_bps: 5_001,
        max_reviewers: 10,
        min_stake_amount: 0,
        protocol_fee_bps: 100,
        max_milestones_per_grant: 20,
        dispute_window_ledgers: 17_280,
        max_grant_title_len: 128,
        max_grant_desc_len: 1_024,
        multisig_threshold: 0,
        rate_limit_multiplier: 1,
        referral_fee_bps: 0,
        decay_config: DecayConfig {
            enabled: false,
            decay_type: DecayType::NoDecay,
            half_life_ledgers: 0,
            linear_decay_per_day: 0,
            decay_floor: 0,
            inactivity_threshold_ledgers: 0,
        },
        reviewer_reward_pool_bps: 0,
        fast_bonus_bps: 0,
    }
}

fn setup() -> (StellarGrantsContract, SyndicateBook, u64) {
    let mut c = StellarGrantsContract::new(config());
    let id = c.grant_create(LEAD, "G".to_string(), "D".to_string(), TOKEN, 1_000, 400, 2, vec![], 0).unwrap();
    let mut s = SyndicateBook::new();
    s.form_syndicate(&c.grants, LEAD, id, 1_000, 100, 2, 50, 10).unwrap();
    (c, s, id)
}

#[test]
fn forming_checks() {
    let (c, mut s, id) = setup();
    let sy = s.get_syndicate(id).unwrap();
    assert_eq!(sy.status, SyndicateStatus::Forming);
    assert_eq!(sy.formation_deadline, 60);
    assert_eq!(sy.token, TOKEN);
    assert_eq!(s.form_syndicate(&c.grants, LEAD, id, 1_000, 100, 2, 50, 10), Err(ContractError::InvalidState));
    assert_eq!(s.form_syndicate(&c.grants, LEAD, 9, 1_000, 100, 2, 50, 10), Err(ContractError::GrantNotFound));
    assert_eq!(s.form_syndicate(&c.grants, LEAD, 9, 0, 100, 2, 50, 10), Err(ContractError::InvalidInput));
    let mut s2 = SyndicateBook::new();
    assert_eq!(s2.form_syndicate(&c.grants, M1, id, 1_000, 100, 2, 50, 10), Err(ContractError::Unauthorized));
}

#[test]
fn members_commit_deposit_and_close() {
    let (mut c, mut s, id) = setup();
    let mut t = Vec::new();
    s.join_syndicate(&mut c.escrow, &mut c.grants, M1, id, 600, 20, 5, &mut t).unwrap();
    s.join_syndicate(&mut c.escrow, &mut c.grants, M2, id, 300, 21, 6, &mut t).unwrap();
    assert_eq!(s.close_syndicate(LEAD, id), Err(ContractError::InvalidInput));
    // the same member adds to its commitment.
    s.join_syndicate(&mut c.escrow, &mut c.grants, M2, id, 100, 22, 7, &mut t).unwrap();
    let m2 = s.get_member(id, M2).unwrap();
    assert_eq!((m2.committed_amount, m2.deposited_amount, m2.share_bps, m2.joined_at), (400, 400, 4_000, 6));
    assert_eq!(s.get_member(id, M1).unwrap().share_bps, 6_000);
    assert_eq!(s.get_syndicate(id).unwrap().member_count, 2);
    assert_eq!(s.total_deposited(id), 1_000);
    assert_eq!(s.get_members(id).len(), 2);
    assert_eq!(c.escrow.get_account(id).unwrap().balance, 1_000);
    assert_eq!(t.len(), 3);
    assert_eq!((t[0].from, t[0].to, t[0].amount), (M1, CONTRACT_ACCOUNT, 600));
    // a third member would exceed the limit of two.
    assert_eq!(s.join_syndicate(&mut c.escrow, &mut c.grants, 303, id, 200, 23, 8, &mut t), Err(ContractError::InvalidInput));
    assert_eq!(s.close_syndicate(M1, id), Err(ContractError::Unauthorized));
    s.close_syndicate(LEAD, id).unwrap();
    assert_eq!(s.get_syndicate(id).unwrap().status, SyndicateStatus::Active);
    assert_eq!(s.join_syndicate(&mut c.escrow, &mut c.grants, M1, id, 200, 24, 9, &mut t), Err(ContractError::InvalidState));
    assert_eq!(s.record_payout_allocation(id, 0, 400), Ok(()));
}

#[test]
fn joining_rules() {
    let (mut c, mut s, id) = setup();
    let mut t = Vec::new();
    assert_eq!(s.join_syndicate(&mut c.escrow, &mut c.grants, M1, id, 0, 20, 5, &mut t), Err(ContractError::ZeroAmount));
    assert_eq!(s.join_syndicate(&mut c.escrow, &mut c.grants, M1, id, 50, 20, 5, &mut t), Err(ContractError::InvalidInput));
    assert_eq!(s.join_syndicate(&mut c.escrow, &mut c.grants, M1, id, 500, 61, 5, &mut t), Err(ContractError::DeadlinePassed));
    assert_eq!(s.join_syndicate(&mut c.escrow, &mut c.grants, M1, 9, 500, 20, 5, &mut t), Err(ContractError::GrantNotFound));
    assert!(t.is_empty());
    assert_eq!(s.record_payout_allocation(id, 0, 400), Err(ContractError::InvalidState));
    assert_eq!(s.record_payout_allocation(id, 0, 0), Err(ContractError::ZeroAmount));
}

#[test]
fn withdraw_after_formation_expires() {
    let (mut c, mut s, id) = setup();
    let mut t = Vec::new();
    s.join_syndicate(&mut c.escrow, &mut c.grants, M1, id, 600, 20, 5, &mut t).unwrap();
    assert_eq!(s.withdraw_syndicate(&mut c.escrow, &mut c.grants, M1, id, 60, &mut t), Err(ContractError::InvalidState));
    assert_eq!(s.withdraw_syndicate(&mut c.escrow, &mut c.grants, M2, id, 61, &mut t), Err(ContractError::NoRefundableAmount));
    assert_eq!(s.withdraw_syndicate(&mut c.escrow, &mut c.grants, M1, id, 61, &mut t), Ok(600));
    assert!(s.get_member(id, M1).is_none());
    assert_eq!(s.get_syndicate(id).unwrap().member_count, 0);
    assert!(s.get_members(id).is_empty());
    let last = t.last().unwrap();
    assert_eq!((last.from, last.to, last.amount), (CONTRACT_ACCOUNT, M1, 600));
    assert_eq!(c.escrow.get_account(id).unwrap().balance, 0);
}
