use stellar_grants::constants::MAX_HOOKS_PER_EVENT;
use stellar_grants::errors::ContractError;
use stellar_grants::hooks::{trigger_results, HookRegistry};
use stellar_grants::types::HookEvent;

#[test]
fn test_register_and_deactivate_hook() {
    let mut reg = HookRegistry::new();
    let admin = 1u64;
    let target = 2u64;

    let idx = reg.register_hook(admin, HookEvent::GrantCreated, target, 1000, 0).unwrap();
    assert_eq!(idx, 0);
    assert!(reg.has_hooks(HookEvent::GrantCreated));

    reg.deactivate_hook(admin, HookEvent::GrantCreated, 0).unwrap();
    assert!(!reg.has_hooks(HookEvent::GrantCreated));
}

#[test]
fn test_max_hooks_limit_enforced() {
    let mut reg = HookRegistry::new();
    let admin = 1u64;

    for i in 0..MAX_HOOKS_PER_EVENT {
        reg.register_hook(admin, HookEvent::MilestoneApproved, 100 + i as u64, 1000, 0).unwrap();
    }
    let err = reg.register_hook(admin, HookEvent::MilestoneApproved, 999, 1000, 0).unwrap_err();
    assert_eq!(err, ContractError::HookLimitExceeded);
}

#[test]
fn test_deactivated_hook_skipped_in_get_hooks() {
    let mut reg = HookRegistry::new();
    let admin = 1u64;
    let target = 2u64;

    reg.register_hook(admin, HookEvent::GrantCreated, target, 500, 0).unwrap();
    reg.deactivate_hook(admin, HookEvent::GrantCreated, 0).unwrap();

    let hooks = reg.get_hooks(HookEvent::GrantCreated);
    assert_eq!(hooks.len(), 1);
    assert!(!hooks[0].is_active);
}

#[test]
fn test_trigger_empty_hooks_returns_empty_results() {
    let reg = HookRegistry::new();
    let calls = reg.trigger_calls(HookEvent::DisputeResolved);
    let results = trigger_results(&calls, &Vec::new());
    assert_eq!(results.len(), 0);
}

#[test]
fn trigger_calls_only_active_hooks() {
    let mut reg = HookRegistry::new();
    reg.register_hook(1, HookEvent::GrantCreated, 20, 10, 0).unwrap();
    reg.register_hook(1, HookEvent::GrantCreated, 21, 10, 0).unwrap();
    reg.deactivate_hook(1, HookEvent::GrantCreated, 0).unwrap();
    let calls = reg.trigger_calls(HookEvent::GrantCreated);
    assert_eq!(calls, vec![(1u32, 21u64)]);
    let results = trigger_results(&calls, &vec![false]);
    assert_eq!(results.len(), 1);
    assert!(!results[0].success);
}

#[test]
fn deactivating_a_missing_hook_is_refused() {
    let mut reg = HookRegistry::new();
    assert_eq!(reg.deactivate_hook(1, HookEvent::GrantCreated, 0), Err(ContractError::HookNotFound));
    reg.register_hook(1, HookEvent::GrantCreated, 20, 10, 0).unwrap();
    reg.deactivate_hook(1, HookEvent::GrantCreated, 0).unwrap();
    assert_eq!(reg.deactivate_hook(1, HookEvent::GrantCreated, 0), Err(ContractError::HookAlreadyInactive));
}
