use vstd::prelude::*;
use std::collections::HashMap;

use crate::errors::ContractError;
use crate::grants::{Grant, GrantBook};
use crate::types::{AccountId, GrantStatus, TransferableRole};

verus! {

broadcast use vstd::std_specs::hash::group_hash_axioms;

/// A pending hand-over of a grant's ownership or of one assessor seat.
#[derive(Clone, Copy, Debug, PartialEq, Eq, Structural)]
pub struct TransferProposal {
    pub grant_id: u64,
    pub current_holder: AccountId,
    pub proposed_new_holder: AccountId,
    pub role: TransferableRole,
    pub reviewer_to_replace: Option<AccountId>,
    pub proposed_at: u64,
}

/// Index of the first occurrence of `x` in `s`, or `s.len()`.
pub open spec fn spec_index_of(s: Seq<AccountId>, x: AccountId) -> int {
    crate::grant_index::spec_first_from(s, x, 0)
}

/// The assessors with the first occurrence of `old_r` replaced by `new_r` (unchanged when
/// `old_r` is not there).
pub open spec fn spec_replace_reviewer(s: Seq<AccountId>, old_r: AccountId, new_r: AccountId) -> Seq<AccountId> {
    let i = spec_index_of(s, old_r);
    if i < s.len() { s.update(i, new_r) } else { s }
}

/// The pending transfer proposal of each grant.
pub struct TransferBook {
    proposals: HashMap<u64, TransferProposal>,
}

impl TransferBook {
    pub closed spec fn proposals(&self) -> Map<u64, TransferProposal> {
        self.proposals@
    }

    pub fn new() -> (b: TransferBook)
        ensures
            b.proposals() == Map::<u64, TransferProposal>::empty(),
    {
        TransferBook { proposals: HashMap::new() }
    }

    /// Propose handing over an active grant's ownership (by its owner) or one of its
    /// assessor seats (by the owner or by that assessor) to `new_holder`; replaces any
    /// pending proposal of the grant.
    pub fn propose_transfer(
        &mut self,
        grants: &GrantBook,
        caller: AccountId,
        grant_id: u64,
        new_holder: AccountId,
        role: TransferableRole,
        reviewer_to_replace: Option<AccountId>,
        now: u64,
    ) -> (r: Result<(), ContractError>)
        ensures
            ({
                let found = grants.grants().contains_key(grant_id);
                let g = grants.grants()[grant_id];
                let active = g.status == GrantStatus::Active;
                let rr = reviewer_to_replace->0;
                &&& !found ==> r == Err::<(), ContractError>(ContractError::GrantNotFound)
                &&& found && !active ==> r == Err::<(), ContractError>(ContractError::InvalidState)
                &&& found && active && role == TransferableRole::Owner && g.owner != caller ==> r == Err::<(), ContractError>(
                    ContractError::Unauthorized)
                &&& found && active && role == TransferableRole::Reviewer && reviewer_to_replace is None ==> r == Err::<
                    (),
                    ContractError,
                >(ContractError::InvalidInput)
                &&& found && active && role == TransferableRole::Reviewer && reviewer_to_replace is Some && (
                !g.reviewers@.contains(rr) || (g.owner != caller && rr != caller)) ==> r == Err::<(), ContractError>(
                    ContractError::Unauthorized)
                &&& r is Ok <==> found && active && (role == TransferableRole::Owner ==> g.owner == caller) && (role
                    == TransferableRole::Reviewer ==> reviewer_to_replace is Some && g.reviewers@.contains(rr) && (g.owner
                    == caller || rr == caller))
                &&& r is Err ==> final(self).proposals() == old(self).proposals()
                &&& r is Ok ==> final(self).proposals() == old(self).proposals().insert(grant_id, TransferProposal {
                    grant_id,
                    current_holder: caller,
                    proposed_new_holder: new_holder,
                    role,
                    reviewer_to_replace,
                    proposed_at: now,
                })
            }),
    {
        let (status, owner, listed) = match grants.get(grant_id) {
            Some(g) => {
                let listed = match reviewer_to_replace {
                    Some(x) => crate::escrow::contains_account(&g.reviewers, x),
                    None => false,
                };
                (g.status, g.owner, listed)
            },
            None => return Err(ContractError::GrantNotFound),
        };
        if status != GrantStatus::Active {
            return Err(ContractError::InvalidState);
        }
        match role {
            TransferableRole::Owner => {
                if owner != caller {
                    return Err(ContractError::Unauthorized);
                }
            },
            TransferableRole::Reviewer => {
                let to_replace = match reviewer_to_replace {
                    Some(x) => x,
                    None => return Err(ContractError::InvalidInput),
                };
                if !listed {
                    return Err(ContractError::Unauthorized);
                }
                if owner != caller && to_replace != caller {
                    return Err(ContractError::Unauthorized);
                }
            },
        }
        self.proposals.insert(
            grant_id,
            TransferProposal { grant_id, current_holder: caller, proposed_new_holder: new_holder, role, reviewer_to_replace, proposed_at: now },
        );
        Ok(())
    }

    /// The proposed new holder accepts: it becomes the owner, or takes the first seat of
    /// the assessor it replaces; the proposal is cleared.
    pub fn accept_transfer(&mut self, grants: &mut GrantBook, new_holder: AccountId, grant_id: u64) -> (r: Result<
        (),
        ContractError,
    >)
        ensures
            final(grants).counter() == old(grants).counter(),
            ({
                let pending = old(self).proposals().contains_key(grant_id);
                let p = old(self).proposals()[grant_id];
                let found = old(grants).grants().contains_key(grant_id);
                let g = old(grants).grants()[grant_id];
                &&& !pending ==> r == Err::<(), ContractError>(ContractError::InvalidState)
                &&& pending && p.proposed_new_holder != new_holder ==> r == Err::<(), ContractError>(ContractError::Unauthorized)
                &&& pending && p.proposed_new_holder == new_holder && !found ==> r == Err::<(), ContractError>(
                    ContractError::GrantNotFound)
                &&& pending && p.proposed_new_holder == new_holder && found && p.role == TransferableRole::Reviewer
                    && p.reviewer_to_replace is None ==> r == Err::<(), ContractError>(ContractError::InvalidInput)
                &&& r is Ok <==> pending && p.proposed_new_holder == new_holder && found && (p.role == TransferableRole::Reviewer
                    ==> p.reviewer_to_replace is Some)
                &&& r is Err ==> final(self).proposals() == old(self).proposals() && final(grants).grants() == old(grants).grants()
                &&& r is Ok ==> final(self).proposals() == old(self).proposals().remove(grant_id) && (p.role
                    == TransferableRole::Owner ==> final(grants).grants() == old(grants).grants().insert(grant_id, Grant {
                    owner: new_holder,
                    ..g
                })) && (p.role == TransferableRole::Reviewer ==> final(grants).grants() == old(grants).grants().insert(
                    grant_id,
                    Grant { reviewers: final(grants).grants()[grant_id].reviewers, ..g },
                ) && final(grants).grants()[grant_id].reviewers@ == spec_replace_reviewer(
                    g.reviewers@,
                    p.reviewer_to_replace->0,
                    new_holder,
                ))
            }),
    {
        let proposal = match self.proposals.get(&grant_id) {
            Some(p) => *p,
            None => return Err(ContractError::InvalidState),
        };
        if proposal.proposed_new_holder != new_holder {
            return Err(ContractError::Unauthorized);
        }
        if !grants.contains(grant_id) {
            return Err(ContractError::GrantNotFound);
        }
        match proposal.role {
            TransferableRole::Owner => {
                let mut grant = grants.take(grant_id).unwrap();
                grant.owner = new_holder;
                grants.set(grant_id, grant);
                assert(grants.grants() =~= old(grants).grants().insert(grant_id, Grant { owner: new_holder, ..old(grants).grants()[grant_id] }));
            },
            TransferableRole::Reviewer => {
                let to_replace = match proposal.reviewer_to_replace {
                    Some(x) => x,
                    None => return Err(ContractError::InvalidInput),
                };
                let mut grant = grants.take(grant_id).unwrap();
                let ghost g0 = grant;
                let mut i: usize = 0;
                while i < grant.reviewers.len()
                    invariant_except_break
                        i <= grant.reviewers@.len(),
                        grant == g0,
                        forall|j: int| 0 <= j < i ==> grant.reviewers@[j] != to_replace,
                        spec_index_of(g0.reviewers@, to_replace) == crate::grant_index::spec_first_from(
                            g0.reviewers@,
                            to_replace,
                            i as int,
                        ),
                    ensures
                        grant == (Grant { reviewers: grant.reviewers, ..g0 }),
                        grant.reviewers@ == spec_replace_reviewer(g0.reviewers@, to_replace, new_holder),
                    decreases grant.reviewers@.len() - i,
                {
                    if grant.reviewers[i] == to_replace {
                        grant.reviewers.set(i, new_holder);
                        break;
                    }
                    i += 1;
                    proof {
                        if i == grant.reviewers@.len() {
                            assert(crate::grant_index::spec_first_from(g0.reviewers@, to_replace, i as int) == g0.reviewers@.len());
                        }
                    }
                }
                grants.set(grant_id, grant);
                assert(grants.grants() =~= old(grants).grants().insert(grant_id, Grant { reviewers: grants.grants()[grant_id].reviewers, ..g0 }));
            },
        }
        self.proposals.remove(&grant_id);
        Ok(())
    }

    /// The pending proposal of a grant.
    pub fn get_transfer_proposal(&self, grant_id: u64) -> (r: Option<TransferProposal>)
        ensures
            r == (if self.proposals().contains_key(grant_id) { Some(self.proposals()[grant_id]) } else { None }),
    {
        match self.proposals.get(&grant_id) {
            Some(p) => Some(*p),
            None => None,
        }
    }
}

} // verus!
