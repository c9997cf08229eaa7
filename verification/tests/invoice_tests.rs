use stellar_grants::contract::StellarGrantsContract;
use stellar_grants::errors::ContractError;
use stellar_grants::invoice::{validate_line_items, InvoiceBook, LineItem};
use stellar_grants::milestones::Milestone;
use stellar_grants::types::{DecayConfig, DecayType, InvoiceStatus, MilestoneState, ProtocolConfig};

const OWNER: u64 = 100;
const TOKEN: u64 = 200;
const REVIEWER: u64 = 400;

fn config() -> ProtocolConfig {
    ProtocolConfig {
        quorum_threshold_bps: 5_001,
        max_reviewers: 10,
        min_stake_amount: 0,
        protocol_fee_bps: 100,
        max_milestones_per_grant: 20,
        dispute_window_ledgers: 17_280,
        max_grant_title_len: 128,
        max_grant_desc_len: 1_024,
        multisig_threshold: 0,
        rate_limit_multiplier: 1,
        referral_fee_bps: 0,
        decay_config: DecayConfig {
            enabled: false,
            decay_type: DecayType::NoDecay,
            half_life_ledgers: 0,
            linear_decay_per_day: 0,
            decay_floor: 0,
            inactivity_threshold_ledgers: 0,
        },
        reviewer_reward_pool_bps: 0,
        fast_bonus_bps: 0,
    }
}

fn line(quantity: u32, unit_price: i128, total: i128) -> LineItem {
    LineItem { description: "work".to_string(), quantity, unit_price, total }
}

fn setup() -> (StellarGrantsContract, u64) {
    let mut c = StellarGrantsContract::new(config());
    let id = c.grant_create(OWNER, "G".to_string(), "D".to_string(), TOKEN, 1_000, 400, 2, vec![REVIEWER], 0).unwrap();
    c.milestones.set(
        id,
        0,
        Milestone {
            idx: 0,
            description: "m".to_string(),
            amount: 400,
            state: MilestoneState::Pending,
            votes: Vec::new(),
            approvals: 0,
            rejections: 0,
            reasons: Vec::new(),
            status_updated_at: 0,
            proof_url: None,
            submission_timestamp: 0,
            deadline: None,
            reviewer_count_snapshot: 1,
        },
    );
    (c, id)
}

fn good_lines() -> Vec<LineItem> {
    vec![line(2, 150, 300), line(1, 88, 88)]
}

#[test]
fn line_items_add_up_with_tax() {
    // 388 plus 3% of it, truncated: 388 + 11.
    assert_eq!(validate_line_items(&good_lines(), 300), Ok((388, 399)));
    assert_eq!(validate_line_items(&good_lines(), 0), Ok((388, 388)));
    assert_eq!(validate_line_items(&vec![line(3, -5, -15)], 1_000), Ok((-15, -16)));
}

#[test]
fn line_items_must_be_consistent_and_present() {
    assert_eq!(validate_line_items(&vec![], 0), Err(ContractError::InvalidInput));
    assert_eq!(validate_line_items(&vec![line(2, 150, 300), line(1, 88, 89)], 0), Err(ContractError::InvalidInput));
}

#[test]
fn submit_then_reject_then_resubmit() {
    let (c, id) = setup();
    let mut book = InvoiceBook::new();
    book.submit_invoice(&c, OWNER, id, 0, "INV-1".to_string(), good_lines(), 300, None, 10).unwrap();
    let inv = book.get_invoice(id, 0).unwrap();
    assert_eq!((inv.subtotal, inv.total, inv.tax_bps), (388, 399, 300));
    assert_eq!(inv.status, InvoiceStatus::Submitted);
    assert_eq!(inv.currency_token, TOKEN);
    assert_eq!(inv.submitted_at, 10);
    assert_eq!(
        book.submit_invoice(&c, OWNER, id, 0, "INV-2".to_string(), good_lines(), 300, None, 11),
        Err(ContractError::InvoiceAlreadySubmitted)
    );

    assert_eq!(book.reject_invoice(&c, OWNER, id, 0, "no".to_string()), Err(ContractError::Unauthorized));
    book.reject_invoice(&c, REVIEWER, id, 0, "fix tax".to_string()).unwrap();
    let inv = book.get_invoice(id, 0).unwrap();
    assert_eq!(inv.status, InvoiceStatus::Rejected);
    assert_eq!(inv.notes.as_deref(), Some("fix tax"));
    assert_eq!(book.reject_invoice(&c, REVIEWER, id, 0, "again".to_string()), Err(ContractError::InvalidState));

    // 400 plus 3% is 412, more than 1% away from 400.
    assert_eq!(book.resubmit_invoice(&c, OWNER, id, 0, vec![line(4, 100, 400)], 19), Err(ContractError::InvalidInput));
    book.resubmit_invoice(&c, OWNER, id, 0, vec![line(4, 97, 388)], 20).unwrap();
    let inv = book.get_invoice(id, 0).unwrap();
    // the tax rate of the first submission stays: 388 + 11.
    assert_eq!((inv.subtotal, inv.total), (388, 399));
    assert_eq!(inv.line_items.len(), 1);
    assert_eq!(inv.status, InvoiceStatus::Submitted);
    assert_eq!(inv.submitted_at, 20);
    assert!(inv.notes.is_none());
    assert_eq!(inv.invoice_number, "INV-1");
    assert_eq!(book.resubmit_invoice(&c, OWNER, id, 0, good_lines(), 21), Err(ContractError::InvalidState));
}

#[test]
fn submit_checks_in_order() {
    let (c, id) = setup();
    let mut book = InvoiceBook::new();
    let n = || "INV".to_string();
    assert_eq!(book.submit_invoice(&c, OWNER, 9, 0, n(), good_lines(), 300, None, 1), Err(ContractError::GrantNotFound));
    assert_eq!(book.submit_invoice(&c, REVIEWER, id, 0, n(), good_lines(), 300, None, 1), Err(ContractError::Unauthorized));
    assert_eq!(book.submit_invoice(&c, OWNER, id, 1, n(), good_lines(), 300, None, 1), Err(ContractError::MilestoneNotFound));
    assert_eq!(book.submit_invoice(&c, OWNER, id, 0, n(), vec![], 300, None, 1), Err(ContractError::InvalidInput));
    // 388 is more than 1% (4) away from 400.
    assert_eq!(book.submit_invoice(&c, OWNER, id, 0, n(), good_lines(), 0, None, 1), Err(ContractError::InvalidInput));
    assert!(book.get_invoice(id, 0).is_none());
    // 396 is within 4 of 400.
    assert!(book.submit_invoice(&c, OWNER, id, 0, n(), vec![line(4, 99, 396)], 0, None, 1).is_ok());
}

#[test]
fn resubmit_needs_an_invoice() {
    let (c, id) = setup();
    let mut book = InvoiceBook::new();
    assert_eq!(book.resubmit_invoice(&c, OWNER, id, 0, good_lines(), 1), Err(ContractError::InvoiceNotFound));
    assert_eq!(book.reject_invoice(&c, REVIEWER, id, 0, "r".to_string()), Err(ContractError::InvoiceNotFound));
}
