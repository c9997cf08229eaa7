use stellar_grants::constants::MAX_SUBSCRIPTIONS_PER_ADDRESS;
use stellar_grants::contract::StellarGrantsContract;
use stellar_grants::errors::ContractError;
use stellar_grants::evidence_schema::{covers, EvidenceBook, EvidenceField};
use stellar_grants::grant_transfer::TransferBook;
use stellar_grants::notification::{event_code, notification_topics, NotificationBook, SubscriptionScope};
use stellar_grants::reviewer_sla::SlaBook;
use stellar_grants::types::{
    DecayConfig, DecayType, EvidenceFieldType, GrantStatus, NotificationEvent, ProtocolConfig, TransferableRole,
};

const OWNER: u64 = 100;
const TOKEN: u64 = 200;
const REVIEWER: u64 = 400;

fn config() -> ProtocolConfig {
    ProtocolConfig {
        quorum_threshold_bps: 5_001,
        max_reviewers: 10,
        min_stake_amount: 0,
        protocol_fee_bps: 100,
        max_milestones_per_grant: 20,
        dispute_window_ledgers: 17_280,
        max_grant_title_len: 128,
        max_grant_desc_len: 1_024,
        multisig_threshold: 0,
        rate_limit_multiplier: 1,
        referral_fee_bps: 0,
        decay_config: DecayConfig {
            enabled: false,
            decay_type: DecayType::NoDecay,
            half_life_ledgers: 0,
            linear_decay_per_day: 0,
            decay_floor: 0,
            inactivity_threshold_ledgers: 0,
        },
        reviewer_reward_pool_bps: 0,
        fast_bonus_bps: 0,
    }
}

fn setup() -> (StellarGrantsContract, u64) {
    let mut c = StellarGrantsContract::new(config());
    let id = c.grant_create(OWNER, "G".to_string(), "D".to_string(), TOKEN, 1_000, 400, 2, vec![REVIEWER, 401], 0).unwrap();
    (c, id)
}

#[test]
fn notification_topics_name_event_and_scope() {
    assert_eq!(event_code(NotificationEvent::GrantCompleted), 5);
    assert_eq!(notification_topics(NotificationEvent::NewGrant, SubscriptionScope::Global), (0, 0, 0));
    assert_eq!(notification_topics(NotificationEvent::MilestoneApproved, SubscriptionScope::PerGrant(7)), (2, 1, 7));
    assert_eq!(notification_topics(NotificationEvent::DisputeRaised, SubscriptionScope::PerContributor(9)), (4, 2, 0));
    assert_eq!(notification_topics(NotificationEvent::BountyPosted, SubscriptionScope::PerTag(55)), (6, 3, 55));
}

#[test]
fn subscriptions_are_listed_once() {
    let mut b = NotificationBook::new();
    let ev = NotificationEvent::MilestoneSubmitted;
    b.subscribe(1, ev, SubscriptionScope::PerGrant(3), 10).unwrap();
    b.subscribe(1, ev, SubscriptionScope::PerGrant(3), 11).unwrap();
    b.subscribe(1, ev, SubscriptionScope::PerGrant(4), 12).unwrap();
    b.subscribe(2, ev, SubscriptionScope::PerGrant(4), 12).unwrap();
    assert_eq!(b.get_subscriptions(1).len(), 2);
    assert_eq!(b.get_subscriptions(1)[0].subscribed_at, 10);
    // subscribers are kept per event and kind of scope.
    assert_eq!(b.get_subscribers(ev, SubscriptionScope::PerGrant(99)), vec![1, 2]);
    assert!(b.is_subscribed(1, ev, SubscriptionScope::PerGrant(4)));
    assert!(!b.is_subscribed(1, ev, SubscriptionScope::Global));
    b.unsubscribe(1, ev, SubscriptionScope::PerGrant(3)).unwrap();
    assert!(!b.is_subscribed(1, ev, SubscriptionScope::PerGrant(3)));
    assert_eq!(b.get_subscriptions(1).len(), 1);
    assert_eq!(b.get_subscribers(ev, SubscriptionScope::PerGrant(4)), vec![2]);
}

#[test]
fn subscriptions_are_capped() {
    let mut b = NotificationBook::new();
    for i in 0..MAX_SUBSCRIPTIONS_PER_ADDRESS {
        b.subscribe(1, NotificationEvent::NewGrant, SubscriptionScope::PerTag(i as u128), 0).unwrap();
    }
    assert_eq!(
        b.subscribe(1, NotificationEvent::NewGrant, SubscriptionScope::Global, 0),
        Err(ContractError::InvalidInput)
    );
}

fn field(name: &str, required: bool) -> EvidenceField {
    EvidenceField { name: name.to_string(), field_type: EvidenceFieldType::Url, required }
}

fn values(names: &[&str]) -> Vec<(String, String)> {
    names.iter().map(|n| (n.to_string(), "v".to_string())).collect()
}

#[test]
fn evidence_must_cover_required_fields() {
    let (c, id) = setup();
    let mut b = EvidenceBook::new();
    assert_eq!(b.validate_evidence(id, 0), Ok(()));
    assert!(covers(&vec![field("repo", true), field("demo", false)], &values(&["repo"])));
    assert!(!covers(&vec![field("repo", true)], &values(&["demo"])));
    assert_eq!(b.set_schema(&c.grants, REVIEWER, None, id, 0, vec![field("repo", true)]), Err(ContractError::Unauthorized));
    assert_eq!(b.set_schema(&c.grants, OWNER, None, id, 2, vec![field("repo", true)]), Err(ContractError::MilestoneIndexOutOfBounds));
    assert_eq!(b.set_schema(&c.grants, OWNER, None, id, 0, vec![]), Err(ContractError::InvalidInput));
    assert_eq!(b.set_schema(&c.grants, OWNER, None, 9, 0, vec![field("repo", true)]), Err(ContractError::GrantNotFound));
    b.set_schema(&c.grants, 7, Some(7), id, 0, vec![field("repo", true), field("demo", false)]).unwrap();
    assert_eq!(b.validate_evidence(id, 0), Err(ContractError::InvalidInput));
    assert_eq!(b.submit_evidence(&c.grants, OWNER, id, 0, values(&["demo"]), 5), Err(ContractError::InvalidInput));
    assert_eq!(b.submit_evidence(&c.grants, REVIEWER, id, 0, values(&["repo"]), 5), Err(ContractError::Unauthorized));
    b.submit_evidence(&c.grants, OWNER, id, 0, values(&["repo"]), 5).unwrap();
    assert_eq!(b.validate_evidence(id, 0), Ok(()));
    // without a schema anything goes.
    b.submit_evidence(&c.grants, OWNER, id, 1, vec![], 5).unwrap();
}

#[test]
fn ownership_transfer_needs_acceptance() {
    let (mut c, id) = setup();
    let mut b = TransferBook::new();
    assert_eq!(b.propose_transfer(&c.grants, REVIEWER, id, 7, TransferableRole::Owner, None, 1), Err(ContractError::Unauthorized));
    b.propose_transfer(&c.grants, OWNER, id, 7, TransferableRole::Owner, None, 1).unwrap();
    assert_eq!(b.get_transfer_proposal(id).unwrap().proposed_new_holder, 7);
    assert_eq!(b.accept_transfer(&mut c.grants, 8, id), Err(ContractError::Unauthorized));
    b.accept_transfer(&mut c.grants, 7, id).unwrap();
    assert_eq!(c.get_grant(id).unwrap().owner, 7);
    assert!(b.get_transfer_proposal(id).is_none());
    assert_eq!(b.accept_transfer(&mut c.grants, 7, id), Err(ContractError::InvalidState));
}

#[test]
fn assessor_seat_transfer() {
    let (mut c, id) = setup();
    let mut b = TransferBook::new();
    assert_eq!(b.propose_transfer(&c.grants, OWNER, id, 9, TransferableRole::Reviewer, None, 1), Err(ContractError::InvalidInput));
    assert_eq!(
        b.propose_transfer(&c.grants, OWNER, id, 9, TransferableRole::Reviewer, Some(555), 1),
        Err(ContractError::Unauthorized)
    );
    assert_eq!(
        b.propose_transfer(&c.grants, 401, id, 9, TransferableRole::Reviewer, Some(REVIEWER), 1),
        Err(ContractError::Unauthorized)
    );
    // the seat holder may hand over its own seat.
    b.propose_transfer(&c.grants, REVIEWER, id, 9, TransferableRole::Reviewer, Some(REVIEWER), 1).unwrap();
    b.accept_transfer(&mut c.grants, 9, id).unwrap();
    assert_eq!(c.get_grant(id).unwrap().reviewers, vec![9, 401]);
    assert_eq!(c.get_grant(id).unwrap().owner, OWNER);
}

#[test]
fn transfers_only_of_active_grants() {
    let (mut c, id) = setup();
    let mut b = TransferBook::new();
    assert_eq!(b.propose_transfer(&c.grants, OWNER, 9, 7, TransferableRole::Owner, None, 1), Err(ContractError::GrantNotFound));
    let mut g = c.grants.get(id).unwrap().clone();
    g.status = GrantStatus::Completed;
    c.grants.set(id, g);
    assert_eq!(b.propose_transfer(&c.grants, OWNER, id, 7, TransferableRole::Owner, None, 1), Err(ContractError::InvalidState));
}

#[test]
fn assessor_deadlines() {
    let mut b = SlaBook::new();
    assert!(!b.check_and_mark_breach(1, 5, 100));
    b.register_sla(1, 5, 50);
    assert!(!b.check_and_mark_breach(1, 5, 50));
    assert!(b.check_and_mark_breach(1, 5, 51));
    assert!(b.get_sla(1, 5).unwrap().breached);
    // a breached SLA stays breached and cannot be fulfilled.
    b.fulfill_sla(1, 5);
    assert!(!b.get_sla(1, 5).unwrap().fulfilled);
    assert!(b.check_and_mark_breach(1, 5, 0));
    b.register_sla(2, 5, 50);
    b.fulfill_sla(2, 5);
    assert!(b.get_sla(2, 5).unwrap().fulfilled);
    assert!(!b.check_and_mark_breach(2, 5, 1_000));
    assert!(b.get_sla(3, 5).is_none());
}
