use stellar_grants::errors::ContractError;
use stellar_grants::params::{ParamStore, ParamValue, MAX_HISTORY_SIZE};
use stellar_grants::types::ParamType;

const ADMIN: u64 = 9;

fn u32_value(v: u32) -> ParamValue {
    ParamValue { param_type: ParamType::U32, u32_val: Some(v), i128_val: None, bool_val: None, address_val: None, string_val: None }
}

fn bool_value(v: bool) -> ParamValue {
    ParamValue { param_type: ParamType::Bool, u32_val: None, i128_val: None, bool_val: Some(v), address_val: None, string_val: None }
}

#[test]
fn unset_params_give_the_default() {
    let s = ParamStore::new();
    assert_eq!(s.get_u32(1, 7), 7);
    assert_eq!(s.get_i128(1, -3), -3);
    assert!(s.get_bool(1, true));
    assert!(s.list_params().is_empty());
    assert_eq!(s.history_len(1), 0);
}

#[test]
fn only_the_admin_sets_params() {
    let mut s = ParamStore::new();
    assert_eq!(s.set_param(1, Some(ADMIN), 5, u32_value(1), "d".to_string(), false, 0), Err(ContractError::Unauthorized));
    assert_eq!(s.set_param(ADMIN, None, 5, u32_value(1), "d".to_string(), false, 0), Err(ContractError::Unauthorized));
    assert!(s.list_params().is_empty());
}

#[test]
fn setting_keeps_history_and_key_order() {
    let mut s = ParamStore::new();
    s.set_param(ADMIN, Some(ADMIN), 5, u32_value(10), "fee".to_string(), false, 1).unwrap();
    s.set_param(ADMIN, Some(ADMIN), 2, bool_value(true), "flag".to_string(), true, 1).unwrap();
    s.set_param(ADMIN, Some(ADMIN), 5, u32_value(11), "fee".to_string(), false, 2).unwrap();
    assert_eq!(s.get_u32(5, 0), 11);
    assert!(s.get_bool(2, false));
    // a parameter of another type falls back to the default.
    assert_eq!(s.get_i128(5, 4), 4);
    assert_eq!(s.list_params(), vec![5, 2]);
    assert_eq!(s.history_len(5), 1);
    assert_eq!(s.history_len(2), 0);
}

#[test]
fn history_is_capped() {
    let mut s = ParamStore::new();
    for i in 0..30u32 {
        s.set_param(ADMIN, Some(ADMIN), 1, u32_value(i), "p".to_string(), false, i as u64).unwrap();
    }
    assert_eq!(s.history_len(1), MAX_HISTORY_SIZE as usize);
    assert_eq!(s.get_u32(1, 0), 29);
}
