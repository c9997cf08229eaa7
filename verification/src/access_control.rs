use vstd::prelude::*;
use std::collections::HashMap;

use crate::errors::ContractError;
use crate::keys::{lemma_pair_key_injective, pair_key, spec_pair_key};
use crate::types::{AccountId, Role};

verus! {

broadcast use vstd::std_specs::hash::group_hash_axioms;

/// A role held by an account.
#[derive(Clone, Copy, Debug, PartialEq, Eq, Structural)]
pub struct RoleAssignment {
    pub holder: AccountId,
    pub role: Role,
    pub granted_by: AccountId,
    pub granted_at: u64,
    pub expires_at: Option<u64>,
    pub is_active: bool,
}

/// The number of a role.
pub open spec fn spec_role_code(r: Role) -> u64 {
    match r {
        Role::SuperAdmin => 0,
        Role::ProtocolAdmin => 1,
        Role::TreasuryManager => 2,
        Role::ComplianceOfficer => 3,
        Role::DisputeArbiter => 4,
        Role::OracleOperator => 5,
        Role::ReviewerModerator => 6,
        Role::EmergencyPauser => 7,
        Role::Relayer => 8,
    }
}

pub fn role_code(r: Role) -> (c: u64)
    ensures
        c == spec_role_code(r),
{
    match r {
        Role::SuperAdmin => 0,
        Role::ProtocolAdmin => 1,
        Role::TreasuryManager => 2,
        Role::ComplianceOfficer => 3,
        Role::DisputeArbiter => 4,
        Role::OracleOperator => 5,
        Role::ReviewerModerator => 6,
        Role::EmergencyPauser => 7,
        Role::Relayer => 8,
    }
}

/// Every role, in order.
pub open spec fn all_roles() -> Seq<Role> {
    seq![
        Role::SuperAdmin,
        Role::ProtocolAdmin,
        Role::TreasuryManager,
        Role::ComplianceOfficer,
        Role::DisputeArbiter,
        Role::OracleOperator,
        Role::ReviewerModerator,
        Role::EmergencyPauser,
        Role::Relayer,
    ]
}

/// Whether an assignment is in force at `now`: active and not expired.
pub open spec fn in_force(a: Option<RoleAssignment>, now: u64) -> bool {
    match a {
        Some(x) => x.is_active && match x.expires_at {
            Some(e) => now <= e,
            None => true,
        },
        None => false,
    }
}

/// Whether a holder of `roles` may grant or revoke `role`: a super admin any role, a
/// protocol admin any role below the two admin roles.
pub open spec fn spec_may_manage(is_super: bool, is_protocol: bool, role: Role) -> bool {
    is_super || (is_protocol && role != Role::SuperAdmin && role != Role::ProtocolAdmin)
}

/// Role assignments by (holder, role) and the members of each role.
pub struct RoleBook {
    assignments: HashMap<u128, RoleAssignment>,
    members: HashMap<u64, Vec<AccountId>>,
}

impl RoleBook {
    pub closed spec fn assignment(&self, holder: AccountId, role: Role) -> Option<RoleAssignment> {
        let k = spec_pair_key(holder, spec_role_code(role));
        if self.assignments@.contains_key(k) { Some(self.assignments@[k]) } else { None }
    }

    /// The accounts listed as holding a role, in granting order.
    pub closed spec fn members(&self, role: Role) -> Seq<AccountId> {
        let c = spec_role_code(role);
        if self.members@.contains_key(c) { self.members@[c]@ } else { Seq::empty() }
    }

    /// Whether `holder` holds `role` at `now`.
    pub open spec fn holds(&self, holder: AccountId, role: Role, now: u64) -> bool {
        in_force(self.assignment(holder, role), now)
    }

    /// Each assignment is stored under its own holder and role, and no account is listed
    /// twice among a role's members.
    pub open spec fn wf(&self) -> bool {
        &&& forall|h: AccountId, r: Role| #[trigger] self.assignment(h, r) is Some ==> self.assignment(h, r)->0.holder == h
            && self.assignment(h, r)->0.role == r
        &&& forall|r: Role| #[trigger] self.members(r).no_duplicates()
    }

    pub fn new() -> (b: RoleBook)
        ensures
            b.wf(),
            forall|h: AccountId, r: Role| #[trigger] b.assignment(h, r) is None,
            forall|r: Role| #[trigger] b.members(r) == Seq::<AccountId>::empty(),
    {
        RoleBook { assignments: HashMap::new(), members: HashMap::new() }
    }

    /// Store a role assignment (its holder is not added to the role's members).
    pub fn set_role_assignment(&mut self, a: RoleAssignment)
        requires
            old(self).wf(),
        ensures
            final(self).wf(),
            forall|h: AccountId, r: Role| #[trigger] final(self).assignment(h, r) == if h == a.holder && r == a.role {
                Some(a)
            } else {
                old(self).assignment(h, r)
            },
            forall|r: Role| #[trigger] final(self).members(r) == old(self).members(r),
    {
        self.assignments.insert(pair_key(a.holder, role_code(a.role)), a);
        proof {
            assert forall|h: AccountId, r: Role| #[trigger] self.assignment(h, r) == if h == a.holder && r == a.role {
                Some(a)
            } else {
                old(self).assignment(h, r)
            } by {
                lemma_pair_key_injective(h, spec_role_code(r), a.holder, spec_role_code(a.role));
            }
            assert forall|r: Role| #[trigger] self.members(r).no_duplicates() by {
                assert(self.members(r) == old(self).members(r));
            }
        }
    }

    fn get_assignment(&self, holder: AccountId, role: Role) -> (r: Option<RoleAssignment>)
        ensures
            r == self.assignment(holder, role),
    {
        match self.assignments.get(&pair_key(holder, role_code(role))) {
            Some(a) => Some(*a),
            None => None,
        }
    }

    fn members_of(&self, role: Role) -> (r: Vec<AccountId>)
        ensures
            r@ == self.members(role),
    {
        match self.members.get(&role_code(role)) {
            Some(l) => {
                let mut out: Vec<AccountId> = Vec::new();
                let mut i: usize = 0;
                while i < l.len()
                    invariant
                        i <= l@.len(),
                        out@ == l@.take(i as int),
                    decreases l@.len() - i,
                {
                    out.push(l[i]);
                    proof {
                        assert(l@.take(i + 1) == l@.take(i as int).push(l@[i as int]));
                    }
                    i += 1;
                }
                proof {
                    assert(l@.take(l@.len() as int) == l@);
                }
                out
            },
            None => Vec::new(),
        }
    }

    fn set_members(&mut self, role: Role, list: Vec<AccountId>)
        requires
            old(self).wf(),
            list@.no_duplicates(),
        ensures
            final(self).wf(),
            forall|h: AccountId, r: Role| #[trigger] final(self).assignment(h, r) == old(self).assignment(h, r),
            forall|r: Role| #[trigger] final(self).members(r) == if r == role { list@ } else { old(self).members(r) },
    {
        let ghost l = list@;
        self.members.insert(role_code(role), list);
        proof {
            assert forall|h: AccountId, r: Role| #[trigger] self.assignment(h, r) == old(self).assignment(h, r) by {}
            assert forall|r: Role| #[trigger] self.members(r) == if r == role { l } else { old(self).members(r) } by {
                if spec_role_code(r) == spec_role_code(role) {
                    assert(r == role);
                }
            }
        }
    }

    /// Whether `address` holds `role` at `now` (active and not expired).
    pub fn has_role(&self, address: AccountId, role: Role, now: u64) -> (r: bool)
        ensures
            r == self.holds(address, role, now),
    {
        match self.get_assignment(address, role) {
            Some(a) => {
                if !a.is_active {
                    return false;
                }
                match a.expires_at {
                    Some(e) => {
                        if now > e {
                            return false;
                        }
                    },
                    None => {},
                }
                true
            },
            None => false,
        }
    }

    /// `Unauthorized` unless `address` holds `role` at `now`.
    pub fn require_role(&self, address: AccountId, role: Role, now: u64) -> (r: Result<(), ContractError>)
        ensures
            r == (if self.holds(address, role, now) { Ok::<(), ContractError>(()) } else { Err(ContractError::Unauthorized) }),
    {
        if !self.has_role(address, role, now) {
            return Err(ContractError::Unauthorized);
        }
        Ok(())
    }

    /// `Unauthorized` unless `address` holds one of `roles` at `now`.
    pub fn require_any_role(&self, address: AccountId, roles: &Vec<Role>, now: u64) -> (r: Result<(), ContractError>)
        ensures
            r == (if exists|i: int| 0 <= i < roles@.len() && self.holds(address, #[trigger] roles@[i], now) {
                Ok::<(), ContractError>(())
            } else {
                Err(ContractError::Unauthorized)
            }),
    {
        let mut i: usize = 0;
        while i < roles.len()
            invariant
                i <= roles@.len(),
                forall|j: int| 0 <= j < i ==> !self.holds(address, #[trigger] roles@[j], now),
            decreases roles@.len() - i,
        {
            if self.has_role(address, roles[i], now) {
                return Ok(());
            }
            i += 1;
        }
        Err(ContractError::Unauthorized)
    }

    /// The accounts listed as holding a role.
    pub fn role_members(&self, role: Role) -> (r: Vec<AccountId>)
        ensures
            r@ == self.members(role),
    {
        self.members_of(role)
    }

    /// The roles `address` holds at `now`, in role order.
    pub fn roles_of(&self, address: AccountId, now: u64) -> (r: Vec<Role>)
        ensures
            r@ == all_roles().filter(|role: Role| self.holds(address, role, now)),
    {
        let all: Vec<Role> = vec![
            Role::SuperAdmin,
            Role::ProtocolAdmin,
            Role::TreasuryManager,
            Role::ComplianceOfficer,
            Role::DisputeArbiter,
            Role::OracleOperator,
            Role::ReviewerModerator,
            Role::EmergencyPauser,
            Role::Relayer,
        ];
        assert(all@ == all_roles());
        let mut roles: Vec<Role> = Vec::new();
        let mut i: usize = 0;
        while i < all.len()
            invariant
                i <= all@.len(),
                all@ == all_roles(),
                roles@ == all@.take(i as int).filter(|role: Role| self.holds(address, role, now)),
            decreases all@.len() - i,
        {
            let role = all[i];
            proof {
                assert(all@.take(i + 1) == all@.take(i as int).push(role));
                all@.take(i as int).lemma_filter_push(role, |role: Role| self.holds(address, role, now));
            }
            if self.has_role(address, role, now) {
                roles.push(role);
            }
            i += 1;
        }
        proof {
            assert(all@.take(all@.len() as int) == all@);
        }
        roles
    }

    /// A super admin grants any role, a protocol admin any role below the admin roles; the
    /// grantee is listed among the role's members.
    pub fn grant_role(&mut self, granter: AccountId, grantee: AccountId, role: Role, expires_at: Option<u64>, now: u64) -> (r:
        Result<(), ContractError>)
        requires
            old(self).wf(),
        ensures
            final(self).wf(),
            ({
                let ok = spec_may_manage(old(self).holds(granter, Role::SuperAdmin, now), old(self).holds(granter,
                    Role::ProtocolAdmin, now), role);
                &&& !ok ==> r == Err::<(), ContractError>(ContractError::Unauthorized) && (forall|h: AccountId, rr: Role| #[trigger] final(
                    self).assignment(h, rr) == old(self).assignment(h, rr)) && (forall|rr: Role| #[trigger] final(self).members(rr)
                    == old(self).members(rr))
                &&& ok ==> r == Ok::<(), ContractError>(()) && (forall|h: AccountId, rr: Role| #[trigger] final(self).assignment(
                    h,
                    rr,
                ) == if h == grantee && rr == role {
                    Some(RoleAssignment { holder: grantee, role, granted_by: granter, granted_at: now, expires_at, is_active: true })
                } else {
                    old(self).assignment(h, rr)
                }) && (forall|rr: Role| #[trigger] final(self).members(rr) == if rr == role && !old(self).members(role).contains(
                    grantee,
                ) {
                    old(self).members(role).push(grantee)
                } else {
                    old(self).members(rr)
                })
            }),
    {
        let is_super = self.has_role(granter, Role::SuperAdmin, now);
        let is_protocol = self.has_role(granter, Role::ProtocolAdmin, now);
        let can_grant = if is_super {
            true
        } else if is_protocol {
            match role {
                Role::SuperAdmin | Role::ProtocolAdmin => false,
                _ => true,
            }
        } else {
            false
        };
        if !can_grant {
            return Err(ContractError::Unauthorized);
        }
        self.set_role_assignment(
            RoleAssignment { holder: grantee, role, granted_by: granter, granted_at: now, expires_at, is_active: true },
        );
        let mut members = self.members_of(role);
        if !crate::escrow::contains_account(&members, grantee) {
            let ghost m0 = members@;
            proof {
                assert(self.members(role).no_duplicates());
            }
            members.push(grantee);
            proof {
                assert forall|i: int, j: int| 0 <= i < j < members@.len() implies members@[i] != members@[j] by {
                    if j == m0.len() {
                        assert(m0.contains(m0[i]));
                    } else {
                        assert(m0[i] != m0[j]);
                    }
                }
            }
            self.set_members(role, members);
        }
        Ok(())
    }

    /// Deactivate `holder`'s assignment of `role` (if any) and drop its first entry among
    /// the role's members (if any).
    #[verifier::loop_isolation(false)]
    fn withdraw_role(&mut self, holder: AccountId, role: Role)
        requires
            old(self).wf(),
        ensures
            final(self).wf(),
            forall|h: AccountId, rr: Role| #[trigger] final(self).assignment(h, rr) == if h == holder && rr == role && old(
                self,
            ).assignment(holder, role) is Some {
                Some(RoleAssignment { is_active: false, ..old(self).assignment(holder, role)->0 })
            } else {
                old(self).assignment(h, rr)
            },
            forall|rr: Role| #[trigger] final(self).members(rr) == if rr == role && old(self).members(role).contains(holder) {
                old(self).members(role).remove(crate::grant_index::spec_first_from(old(self).members(role), holder, 0))
            } else {
                old(self).members(rr)
            },
    {
        match self.get_assignment(holder, role) {
            Some(a) => {
                self.set_role_assignment(RoleAssignment { is_active: false, ..a });
            },
            None => {},
        }
        let ghost mid = *self;
        proof {
            assert forall|h: AccountId, rr: Role| #[trigger] mid.assignment(h, rr) == if h == holder && rr == role && old(
                self,
            ).assignment(holder, role) is Some {
                Some(RoleAssignment { is_active: false, ..old(self).assignment(holder, role)->0 })
            } else {
                old(self).assignment(h, rr)
            } by {}
            assert forall|rr: Role| #[trigger] mid.members(rr) == old(self).members(rr) by {}
        }
        let mut members = self.members_of(role);
        let ghost l0 = members@;
        let mut i: usize = 0;
        while i < members.len()
            invariant
                i <= members@.len(),
                members@ == l0,
                *self == mid,
                forall|j: int| 0 <= j < i ==> members@[j] != holder,
                crate::grant_index::spec_first_from(l0, holder, 0) == crate::grant_index::spec_first_from(l0, holder, i as int),
            decreases members@.len() - i,
        {
            if members[i] == holder {
                proof {
                    assert(l0.contains(holder));
                    assert(crate::grant_index::spec_first_from(l0, holder, i as int) == i);
                }
                members.remove(i);
                proof {
                    assert(l0.no_duplicates());
                    assert forall|a: int, b: int| 0 <= a < b < members@.len() implies members@[a] != members@[b] by {
                        let a0 = if a < i { a } else { a + 1 };
                        let b0 = if b < i { b } else { b + 1 };
                        assert(members@[a] == l0[a0] && members@[b] == l0[b0]);
                    }
                }
                self.set_members(role, members);
                proof {
                    assert forall|h: AccountId, rr: Role| #[trigger] self.assignment(h, rr) == mid.assignment(h, rr) by {}
                }
                return;
            }
            i += 1;
        }
        proof {
            assert(!l0.contains(holder));
        }
    }

    /// A super admin revokes any role, a protocol admin any role below the admin roles.
    pub fn revoke_role(&mut self, revoker: AccountId, holder: AccountId, role: Role, now: u64) -> (r: Result<(), ContractError>)
        requires
            old(self).wf(),
        ensures
            final(self).wf(),
            ({
                let ok = spec_may_manage(old(self).holds(revoker, Role::SuperAdmin, now), old(self).holds(revoker,
                    Role::ProtocolAdmin, now), role);
                &&& !ok ==> r == Err::<(), ContractError>(ContractError::Unauthorized) && (forall|h: AccountId, rr: Role| #[trigger] final(
                    self).assignment(h, rr) == old(self).assignment(h, rr)) && (forall|rr: Role| #[trigger] final(self).members(rr)
                    == old(self).members(rr))
                &&& ok ==> r == Ok::<(), ContractError>(()) && spec_withdrawn(old(self), final(self), holder, role)
            }),
    {
        let is_super = self.has_role(revoker, Role::SuperAdmin, now);
        let is_protocol = self.has_role(revoker, Role::ProtocolAdmin, now);
        let can_revoke = if is_super {
            true
        } else if is_protocol {
            match role {
                Role::SuperAdmin | Role::ProtocolAdmin => false,
                _ => true,
            }
        } else {
            false
        };
        if !can_revoke {
            return Err(ContractError::Unauthorized);
        }
        self.withdraw_role(holder, role);
        Ok(())
    }

    /// A holder gives up a role it holds at `now`.
    pub fn renounce_role(&mut self, holder: AccountId, role: Role, now: u64) -> (r: Result<(), ContractError>)
        requires
            old(self).wf(),
        ensures
            final(self).wf(),
            !old(self).holds(holder, role, now) ==> r == Err::<(), ContractError>(ContractError::InvalidState) && (forall|
                h: AccountId,
                rr: Role,
            | #[trigger] final(self).assignment(h, rr) == old(self).assignment(h, rr)) && (forall|rr: Role| #[trigger] final(
                self).members(rr) == old(self).members(rr)),
            old(self).holds(holder, role, now) ==> r == Ok::<(), ContractError>(()) && spec_withdrawn(old(self), final(self),
                holder, role),
    {
        if !self.has_role(holder, role, now) {
            return Err(ContractError::InvalidState);
        }
        self.withdraw_role(holder, role);
        Ok(())
    }
}

/// `new` is `old` with `holder`'s assignment of `role` deactivated and its first entry among
/// the role's members dropped.
pub open spec fn spec_withdrawn(old_book: &RoleBook, new_book: &RoleBook, holder: AccountId, role: Role) -> bool {
    &&& forall|h: AccountId, rr: Role| #[trigger] new_book.assignment(h, rr) == if h == holder && rr == role
        && old_book.assignment(holder, role) is Some {
        Some(RoleAssignment { is_active: false, ..old_book.assignment(holder, role)->0 })
    } else {
        old_book.assignment(h, rr)
    }
    &&& forall|rr: Role| #[trigger] new_book.members(rr) == if rr == role && old_book.members(role).contains(holder) {
        old_book.members(role).remove(crate::grant_index::spec_first_from(old_book.members(role), holder, 0))
    } else {
        old_book.members(rr)
    }
}

/// A role granted at `now` is held until it expires, and after it is revoked or renounced it
/// is held no more.
pub proof fn lemma_grant_then_revoke(b0: &RoleBook, b1: &RoleBook, b2: &RoleBook, grantee: AccountId, role: Role, granter: AccountId,
    expires_at: Option<u64>, now: u64, later: u64)
    requires
        forall|h: AccountId, rr: Role| #[trigger] b1.assignment(h, rr) == if h == grantee && rr == role {
            Some(RoleAssignment { holder: grantee, role, granted_by: granter, granted_at: now, expires_at, is_active: true })
        } else {
            b0.assignment(h, rr)
        },
        spec_withdrawn(b1, b2, grantee, role),
    ensures
        b1.holds(grantee, role, later) <==> (expires_at matches Some(e) ==> later <= e),
        !b2.holds(grantee, role, later),
{
    assert(b1.assignment(grantee, role) is Some);
    assert(b2.assignment(grantee, role) == Some(RoleAssignment { is_active: false, ..b1.assignment(grantee, role)->0 }));
}

/// After a role is granted, its grantee is listed among the role's members exactly once.
pub proof fn lemma_granted_listed_once(b0: &RoleBook, b1: &RoleBook, grantee: AccountId, role: Role)
    requires
        b1.wf(),
        forall|rr: Role| #[trigger] b1.members(rr) == if rr == role && !b0.members(role).contains(grantee) {
            b0.members(role).push(grantee)
        } else {
            b0.members(rr)
        },
    ensures
        exists|i: int| 0 <= i < b1.members(role).len() && b1.members(role)[i] == grantee,
        forall|i: int, j: int|
            0 <= i < b1.members(role).len() && 0 <= j < b1.members(role).len() && b1.members(role)[i] == grantee
                && b1.members(role)[j] == grantee ==> i == j,
{
    let m = b1.members(role);
    assert(m.no_duplicates());
    if b0.members(role).contains(grantee) {
        let k = choose|k: int| 0 <= k < b0.members(role).len() && b0.members(role)[k] == grantee;
        assert(m[k] == grantee);
    } else {
        assert(m[m.len() - 1] == grantee);
    }
}

} // verus!
