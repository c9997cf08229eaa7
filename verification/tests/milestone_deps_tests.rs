use stellar_grants::contract::StellarGrantsContract;
use stellar_grants::errors::ContractError;
use stellar_grants::milestone_deps::{topological_order, unblocked_milestones, validate_dag, DagBook, MilestoneDependency};
use stellar_grants::types::{DecayConfig, DecayType, ProtocolConfig};

fn make_deps(pairs: &[(u32, &[u32])]) -> Vec<MilestoneDependency> {
    let mut deps = Vec::new();
    for (idx, depends_on) in pairs {
        deps.push(MilestoneDependency { milestone_idx: *idx, depends_on: depends_on.to_vec() });
    }
    deps
}

fn config() -> ProtocolConfig {
    ProtocolConfig {
        quorum_threshold_bps: 5_001,
        max_reviewers: 10,
        min_stake_amount: 0,
        protocol_fee_bps: 100,
        max_milestones_per_grant: 20,
        dispute_window_ledgers: 17_280,
        max_grant_title_len: 128,
        max_grant_desc_len: 1_024,
        multisig_threshold: 0,
        rate_limit_multiplier: 1,
        referral_fee_bps: 0,
        decay_config: DecayConfig {
            enabled: false,
            decay_type: DecayType::NoDecay,
            half_life_ledgers: 0,
            linear_decay_per_day: 0,
            decay_floor: 0,
            inactivity_threshold_ledgers: 0,
        },
        reviewer_reward_pool_bps: 0,
        fast_bonus_bps: 0,
    }
}

#[test]
fn linear_chain_is_valid() {
    let deps = make_deps(&[(1, &[0]), (2, &[1])]);
    assert!(validate_dag(&deps, 3).is_ok());
}

#[test]
fn diamond_is_valid() {
    let deps = make_deps(&[(1, &[0]), (2, &[0]), (3, &[1, 2])]);
    assert!(validate_dag(&deps, 4).is_ok());
}

#[test]
fn cycle_detected() {
    let deps = make_deps(&[(1, &[0]), (0, &[1])]);
    assert_eq!(validate_dag(&deps, 2), Err(ContractError::DagCycleDetected));
}

#[test]
fn self_dependency_rejected() {
    let deps = make_deps(&[(1, &[1])]);
    assert_eq!(validate_dag(&deps, 2), Err(ContractError::DagCycleDetected));
}

#[test]
fn topological_sort_linear_chain() {
    let deps = make_deps(&[(1, &[0]), (2, &[1])]);
    let order = topological_order(&deps, 3).unwrap();
    let pos_0 = order.iter().position(|x| *x == 0).unwrap();
    let pos_1 = order.iter().position(|x| *x == 1).unwrap();
    let pos_2 = order.iter().position(|x| *x == 2).unwrap();
    assert!(pos_0 < pos_1);
    assert!(pos_1 < pos_2);
}

#[test]
fn unblocked_milestones_no_dag() {
    let c = StellarGrantsContract::new(config());
    let dags = DagBook::new();
    let result = unblocked_milestones(&c, &dags, 999);
    assert_eq!(result.len(), 0);
}

#[test]
fn out_of_range_indices_are_invalid_input() {
    assert_eq!(validate_dag(&make_deps(&[(5, &[0])]), 3), Err(ContractError::InvalidInput));
    assert_eq!(validate_dag(&make_deps(&[(1, &[7])]), 3), Err(ContractError::InvalidInput));
}

#[test]
fn kahn_order_takes_milestones_as_they_become_free() {
    let deps = make_deps(&[(1, &[0])]);
    assert_eq!(topological_order(&deps, 4).unwrap(), vec![0, 2, 3, 1]);
    let diamond = make_deps(&[(1, &[0]), (2, &[0]), (3, &[1, 2])]);
    assert_eq!(topological_order(&diamond, 4).unwrap(), vec![0, 1, 2, 3]);
}

#[test]
fn repeated_dependency_counts_once() {
    let deps = make_deps(&[(1, &[0, 0])]);
    assert_eq!(validate_dag(&deps, 2), Ok(()));
    assert_eq!(topological_order(&deps, 2).unwrap(), vec![0, 1]);
    let cyclic = make_deps(&[(1, &[0, 0]), (0, &[1])]);
    assert_eq!(validate_dag(&cyclic, 2), Err(ContractError::DagCycleDetected));
}

#[test]
fn longer_cycle_detected_by_sort() {
    let deps = make_deps(&[(0, &[2]), (1, &[0]), (2, &[1])]);
    assert_eq!(topological_order(&deps, 3), Err(ContractError::DagCycleDetected));
}
