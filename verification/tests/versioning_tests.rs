use stellar_grants::contract::StellarGrantsContract;
use stellar_grants::errors::ContractError;
use stellar_grants::types::{AmendmentStatus, DecayConfig, DecayType, ProtocolConfig};
use stellar_grants::versioning::{grant_to_version, is_material, VersionBook};

const OWNER: u64 = 100;
const TOKEN: u64 = 200;
const REVIEWER: u64 = 400;

fn config() -> ProtocolConfig {
    ProtocolConfig {
        quorum_threshold_bps: 5_001,
        max_reviewers: 10,
        min_stake_amount: 0,
        protocol_fee_bps: 100,
        max_milestones_per_grant: 20,
        dispute_window_ledgers: 17_280,
        max_grant_title_len: 128,
        max_grant_desc_len: 1_024,
        multisig_threshold: 0,
        rate_limit_multiplier: 1,
        referral_fee_bps: 0,
        decay_config: DecayConfig {
            enabled: false,
            decay_type: DecayType::NoDecay,
            half_life_ledgers: 0,
            linear_decay_per_day: 0,
            decay_floor: 0,
            inactivity_threshold_ledgers: 0,
        },
        reviewer_reward_pool_bps: 0,
        fast_bonus_bps: 0,
    }
}

fn strings(v: &[&str]) -> Vec<String> {
    v.iter().map(|s| s.to_string()).collect()
}

fn setup() -> (StellarGrantsContract, u64) {
    let mut c = StellarGrantsContract::new(config());
    let id = c.grant_create(OWNER, "Title".to_string(), "Desc".to_string(), TOKEN, 1_000, 400, 2, vec![REVIEWER], 0).unwrap();
    (c, id)
}

#[test]
fn material_fields() {
    assert!(!is_material(&strings(&["description"])));
    assert!(is_material(&strings(&["description", "total_amount"])));
    assert!(is_material(&strings(&["title"])));
    assert!(is_material(&strings(&["total_milestones"])));
    assert!(!is_material(&vec![]));
}

#[test]
fn snapshot_of_a_grant() {
    let (c, id) = setup();
    let v = grant_to_version(c.get_grant(id).unwrap(), 3, Some(2), 77);
    assert_eq!((v.grant_id, v.version, v.total_amount, v.total_milestones, v.created_at), (id, 3, 1_000, 2, 77));
    assert_eq!(v.title, "Title");
    assert_eq!(v.amendment_id, Some(2));
}

#[test]
fn minor_amendment_applies_at_once() {
    let (mut c, id) = setup();
    let mut b = VersionBook::new();
    let ver = b.propose_amendment(&c.grants, OWNER, id, strings(&["description"]), strings(&["Better"]), "typo".to_string(), 5).unwrap();
    assert_eq!(ver, 2);
    let hist = b.amendment_history(id);
    assert_eq!(hist.len(), 1);
    assert_eq!(hist[0].status, AmendmentStatus::Approved);
    assert_eq!(hist[0].previous_values, strings(&["Desc"]));
    assert_eq!(hist[0].resolved_at, Some(5));
    let snap = b.apply_amendment(&mut c.grants, id, ver, 6).unwrap();
    assert_eq!(snap.version, 2);
    assert_eq!(snap.description, "Better");
    assert_eq!(snap.title, "Title");
    assert_eq!(snap.amendment_id, Some(2));
    assert_eq!(c.get_grant(id).unwrap().description, "Better");
}

#[test]
fn material_amendment_waits_for_a_vote() {
    let (mut c, id) = setup();
    let mut b = VersionBook::new();
    let ver = b
        .propose_amendment(&c.grants, OWNER, id, strings(&["title", "total_amount"]), strings(&["New", "5"]), "r".to_string(), 5)
        .unwrap();
    {
        let hist = b.amendment_history(id);
        assert_eq!(hist[0].status, AmendmentStatus::Proposed);
        assert_eq!(hist[0].previous_values, strings(&["Title", "current_total_amount"]));
    }
    assert_eq!(b.apply_amendment(&mut c.grants, id, ver, 6).map(|_| ()), Err(ContractError::InvalidState));
    assert_eq!(b.vote_amendment(&c.grants, OWNER, id, ver, true, 6), Err(ContractError::Unauthorized));
    assert_eq!(b.vote_amendment(&c.grants, REVIEWER, id, 9, true, 6), Err(ContractError::InvalidInput));
    assert_eq!(b.vote_amendment(&c.grants, REVIEWER, id, ver, true, 7), Ok(AmendmentStatus::Approved));
    assert_eq!(b.vote_amendment(&c.grants, REVIEWER, id, ver, true, 8), Err(ContractError::InvalidState));
    b.apply_amendment(&mut c.grants, id, ver, 9).unwrap();
    assert_eq!(c.get_grant(id).unwrap().title, "New");
    // the total is not rewritten.
    assert_eq!(c.get_grant(id).unwrap().total_amount, 1_000);
    let next = b.propose_amendment(&c.grants, OWNER, id, strings(&["title"]), strings(&["Again"]), "r".to_string(), 10).unwrap();
    assert_eq!(next, 3);
    assert_eq!(b.vote_amendment(&c.grants, REVIEWER, id, next, false, 11), Ok(AmendmentStatus::Rejected));
    assert_eq!(b.apply_amendment(&mut c.grants, id, next, 12).map(|_| ()), Err(ContractError::InvalidState));
    assert_eq!(b.amendment_history(id).len(), 2);
}

#[test]
fn proposal_checks() {
    let (c, id) = setup();
    let mut b = VersionBook::new();
    let p = |b: &mut VersionBook, who: u64, g: u64, f: &[&str], v: &[&str]| {
        b.propose_amendment(&c.grants, who, g, strings(f), strings(v), "r".to_string(), 1)
    };
    assert_eq!(p(&mut b, OWNER, id, &[], &[]), Err(ContractError::InvalidInput));
    assert_eq!(p(&mut b, OWNER, id, &["title"], &[]), Err(ContractError::InvalidInput));
    assert_eq!(p(&mut b, OWNER, 9, &["title"], &["x"]), Err(ContractError::GrantNotFound));
    assert_eq!(p(&mut b, REVIEWER, id, &["title"], &["x"]), Err(ContractError::Unauthorized));
    assert_eq!(p(&mut b, OWNER, id, &["token"], &["x"]), Err(ContractError::InvalidInput));
    assert!(b.amendment_history(id).is_empty());
}
