use stellar_grants::access_control::{role_code, RoleAssignment, RoleBook};
use stellar_grants::errors::ContractError;
use stellar_grants::types::Role;

const ROOT: u64 = 1;
const ADMIN: u64 = 2;
const USER: u64 = 3;

fn with_root() -> RoleBook {
    let mut b = RoleBook::new();
    b.set_role_assignment(RoleAssignment {
        holder: ROOT,
        role: Role::SuperAdmin,
        granted_by: ROOT,
        granted_at: 0,
        expires_at: None,
        is_active: true,
    });
    b
}

#[test]
fn role_codes_follow_declaration_order() {
    assert_eq!(role_code(Role::SuperAdmin), 0);
    assert_eq!(role_code(Role::ComplianceOfficer), 3);
    assert_eq!(role_code(Role::Relayer), 8);
}

#[test]
fn super_admin_grants_any_role() {
    let mut b = with_root();
    b.grant_role(ROOT, ADMIN, Role::ProtocolAdmin, None, 5).unwrap();
    assert!(b.has_role(ADMIN, Role::ProtocolAdmin, 6));
    assert_eq!(b.role_members(Role::ProtocolAdmin), vec![ADMIN]);
    assert_eq!(b.roles_of(ROOT, 6), vec![Role::SuperAdmin]);
    // granting again does not list the member twice.
    b.grant_role(ROOT, ADMIN, Role::ProtocolAdmin, None, 7).unwrap();
    assert_eq!(b.role_members(Role::ProtocolAdmin), vec![ADMIN]);
}

#[test]
fn protocol_admin_grants_only_lower_roles() {
    let mut b = with_root();
    b.grant_role(ROOT, ADMIN, Role::ProtocolAdmin, None, 5).unwrap();
    assert_eq!(b.grant_role(ADMIN, USER, Role::SuperAdmin, None, 6), Err(ContractError::Unauthorized));
    assert_eq!(b.grant_role(ADMIN, USER, Role::ProtocolAdmin, None, 6), Err(ContractError::Unauthorized));
    b.grant_role(ADMIN, USER, Role::Relayer, None, 6).unwrap();
    assert_eq!(b.grant_role(USER, 4, Role::Relayer, None, 6), Err(ContractError::Unauthorized));
    assert!(b.require_role(USER, Role::Relayer, 7).is_ok());
    assert_eq!(b.require_role(USER, Role::TreasuryManager, 7), Err(ContractError::Unauthorized));
}

#[test]
fn roles_expire() {
    let mut b = with_root();
    b.grant_role(ROOT, USER, Role::OracleOperator, Some(100), 10).unwrap();
    assert!(b.has_role(USER, Role::OracleOperator, 100));
    assert!(!b.has_role(USER, Role::OracleOperator, 101));
    assert_eq!(b.require_any_role(USER, &vec![Role::Relayer, Role::OracleOperator], 50), Ok(()));
    assert_eq!(b.require_any_role(USER, &vec![Role::Relayer, Role::OracleOperator], 150), Err(ContractError::Unauthorized));
    assert!(b.roles_of(USER, 150).is_empty());
}

#[test]
fn grant_then_revoke_then_renounce() {
    let mut b = with_root();
    b.grant_role(ROOT, USER, Role::Relayer, None, 1).unwrap();
    b.grant_role(ROOT, ADMIN, Role::Relayer, None, 1).unwrap();
    assert_eq!(b.revoke_role(USER, ADMIN, Role::Relayer, 2), Err(ContractError::Unauthorized));
    b.revoke_role(ROOT, USER, Role::Relayer, 2).unwrap();
    assert!(!b.has_role(USER, Role::Relayer, 3));
    assert_eq!(b.role_members(Role::Relayer), vec![ADMIN]);
    b.renounce_role(ADMIN, Role::Relayer, 3).unwrap();
    assert!(b.role_members(Role::Relayer).is_empty());
    assert_eq!(b.renounce_role(ADMIN, Role::Relayer, 4), Err(ContractError::InvalidState));
}
