use stellar_grants::compliance::{is_valid, level_rank, ComplianceAttestation, ComplianceBook};
use stellar_grants::errors::ContractError;
use stellar_grants::grant_index::{paginate, status_code, GrantIndex};
use stellar_grants::reputation_decay::{apply_decay, days_inactive, exponential_decay, ledgers_inactive, linear_decay};
use stellar_grants::types::{ComplianceLevel, ComplianceStatus, DecayConfig, DecayType, GrantStatus};

#[test]
fn pages_of_a_list() {
    let list: Vec<u64> = (1..=7).collect();
    assert_eq!(paginate(&list, 0, 3), vec![1, 2, 3]);
    assert_eq!(paginate(&list, 5, 3), vec![6, 7]);
    assert_eq!(paginate(&list, 7, 3), Vec::<u64>::new());
    assert_eq!(paginate(&list, 2, 0), Vec::<u64>::new());
    assert_eq!(paginate(&list, 1, u32::MAX), vec![2, 3, 4, 5, 6, 7]);
}

#[test]
fn grants_are_indexed_by_owner_status_token_and_order() {
    let mut ix = GrantIndex::new();
    ix.on_grant_created(1, 10, 200, GrantStatus::Active);
    ix.on_grant_created(2, 11, 200, GrantStatus::Active);
    ix.on_grant_created(3, 10, 201, GrantStatus::Active);
    ix.on_grant_created(3, 10, 201, GrantStatus::Active);
    assert_eq!(ix.by_owner(10, 0, 10), vec![1, 3]);
    assert_eq!(ix.by_owner_lists_get(11), vec![2]);
    assert_eq!(ix.by_token(200, 0, 10), vec![1, 2]);
    // the per-key lists hold a grant once; the global order records every creation.
    assert_eq!(ix.recent(0, 10), vec![1, 2, 3, 3]);
    assert_eq!(ix.recent(1, 1), vec![2]);
    assert_eq!(ix.by_status(GrantStatus::Active, 0, 10), vec![1, 2, 3]);
    ix.on_status_changed(2, GrantStatus::Active, GrantStatus::Completed);
    assert_eq!(ix.by_status(GrantStatus::Active, 0, 10), vec![1, 3]);
    assert_eq!(ix.by_status(GrantStatus::Completed, 0, 10), vec![2]);
    ix.on_contributor_assigned(3, 50);
    ix.on_contributor_assigned(1, 50);
    assert_eq!(ix.by_contributor(50, 0, 10), vec![3, 1]);
    assert_eq!(ix.index_counts(Some(10)), (2, 2, 0));
    assert_eq!(ix.index_counts(Some(50)), (0, 2, 2));
    assert_eq!(ix.index_counts(None), (0, 2, 0));
    assert_eq!(status_code(GrantStatus::Cancelled), 2);
}

fn attestation(status: ComplianceStatus, expires_at: u64) -> ComplianceAttestation {
    ComplianceAttestation {
        subject: 5,
        status,
        level: ComplianceLevel::Standard,
        attested_by: 9,
        attested_at: 0,
        expires_at,
        jurisdiction: "EU".to_string(),
    }
}

#[test]
fn attestation_validity() {
    assert!(is_valid(&attestation(ComplianceStatus::Approved, 0), u64::MAX));
    assert!(is_valid(&attestation(ComplianceStatus::Approved, 100), 100));
    assert!(!is_valid(&attestation(ComplianceStatus::Approved, 100), 101));
    assert!(!is_valid(&attestation(ComplianceStatus::Rejected, 0), 1));
    assert!(!is_valid(&attestation(ComplianceStatus::Expired, 0), 1));
    assert!(is_valid(&attestation(ComplianceStatus::Pending, 0), 1));
    assert_eq!(level_rank(ComplianceLevel::NotRequired), 0);
    assert_eq!(level_rank(ComplianceLevel::Enhanced), 3);
}

#[test]
fn compliance_checks() {
    let mut b = ComplianceBook::new();
    let attest = |b: &mut ComplianceBook, who: u64, status: ComplianceStatus, level: ComplianceLevel| {
        b.attest(who, 5, status, level, 1_000, "EU".to_string(), 10)
    };
    assert_eq!(attest(&mut b, 9, ComplianceStatus::Approved, ComplianceLevel::Basic), Err(ContractError::VerifierNotSet));
    assert_eq!(b.set_verifier(1, Some(2), 9), Err(ContractError::Unauthorized));
    b.set_verifier(2, Some(2), 9).unwrap();
    assert_eq!(attest(&mut b, 8, ComplianceStatus::Approved, ComplianceLevel::Basic), Err(ContractError::NotVerifier));
    assert_eq!(b.require_compliant(5, ComplianceLevel::NotRequired, 0), Ok(()));
    assert_eq!(b.require_compliant(5, ComplianceLevel::Basic, 0), Err(ContractError::ComplianceNotVerified));
    attest(&mut b, 9, ComplianceStatus::Pending, ComplianceLevel::Enhanced).unwrap();
    assert_eq!(b.require_compliant(5, ComplianceLevel::Basic, 20), Err(ContractError::ComplianceNotVerified));
    attest(&mut b, 9, ComplianceStatus::Approved, ComplianceLevel::Standard).unwrap();
    assert_eq!(b.require_compliant(5, ComplianceLevel::Standard, 20), Ok(()));
    assert_eq!(b.require_compliant(5, ComplianceLevel::Enhanced, 20), Err(ContractError::ComplianceCheckFailed));
    assert_eq!(b.require_compliant(5, ComplianceLevel::Basic, 1_001), Err(ContractError::ComplianceCheckFailed));
    assert_eq!(b.get_attestation(5).unwrap().attested_at, 10);
    assert_eq!(b.revoke(7, Some(2), 5), Err(ContractError::Unauthorized));
    b.revoke(2, Some(2), 5).unwrap();
    assert!(b.get_attestation(5).is_none());
}

fn decay(decay_type: DecayType) -> DecayConfig {
    DecayConfig {
        enabled: true,
        decay_type,
        half_life_ledgers: 100,
        linear_decay_per_day: 10,
        decay_floor: 20,
        inactivity_threshold_ledgers: 1_000,
    }
}

#[test]
fn inactivity_is_measured_in_days_and_ledgers() {
    assert_eq!(days_inactive(86_400 * 3 + 5, 5), 3);
    assert_eq!(days_inactive(5, 10), 0);
    assert_eq!(ledgers_inactive(1_004, 0), 200);
    assert_eq!(ledgers_inactive(0, 0), 0);
}

#[test]
fn decay_rules() {
    let lin = decay(DecayType::Linear);
    assert_eq!(linear_decay(500, 3, &lin), 470);
    assert_eq!(linear_decay(500, 100, &lin), 20);
    let exp = decay(DecayType::Exponential);
    assert_eq!(exponential_decay(800, 250, &exp), 200);
    assert_eq!(exponential_decay(800, 99, &exp), 800);
    assert_eq!(exponential_decay(800, 100 * 40, &exp), 20);
    // below the threshold (5,000 seconds is 1,000 ledgers) nothing decays.
    assert_eq!(apply_decay(4_999, 800, 0, &exp), 800);
    // 5,000 seconds is 1,000 ledgers: ten half-lives.
    assert_eq!(apply_decay(5_000, 8_000, 0, &exp), 20);
    assert_eq!(apply_decay(86_400 * 2, 500, 0, &lin), 480);
    assert_eq!(apply_decay(86_400 * 2, 500, 0, &DecayConfig { enabled: false, ..lin }), 500);
    assert_eq!(apply_decay(86_400 * 2, 500, 0, &decay(DecayType::NoDecay)), 500);
}
