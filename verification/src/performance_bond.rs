use vstd::prelude::*;
use std::collections::HashMap;

use crate::constants::CONTRACT_ACCOUNT;
use crate::errors::ContractError;
use crate::grants::{GrantBook, GrantFund};
use crate::keys::Transfer;
use crate::types::{AccountId, BondStatus, GrantStatus};

verus! {

/// The payload of the event published when a grant owner asks for a bond.
#[derive(Clone, Copy, Debug, PartialEq, Eq, Structural)]
pub struct BondRequired {
    pub bond_id: u32,
    pub grant_id: u64,
    pub bond_amount: i128,
}

/// The payload of the event published when a bond goes back to its guarantor.
#[derive(Clone, Copy, Debug, PartialEq, Eq, Structural)]
pub struct BondReleased {
    pub bond_id: u32,
    pub grant_id: u64,
}

/// The payload of the event published when a funder takes a bond.
#[derive(Clone, Copy, Debug, PartialEq, Eq, Structural)]
pub struct BondClaimed {
    pub bond_id: u32,
    pub grant_id: u64,
    pub payout_amount: i128,
}


broadcast use vstd::std_specs::hash::group_hash_axioms;

/// A bond backing a grant's delivery.
#[derive(Clone, Copy, Debug, PartialEq, Eq, Structural)]
pub struct PerformanceBond {
    pub id: u32,
    pub grant_id: u64,
    pub principal: AccountId,
    pub guarantor: AccountId,
    pub bond_amount: i128,
    pub token: AccountId,
    pub status: BondStatus,
    pub posted_at: Option<u64>,
    pub expires_at: u64,
}

/// A funder's claim on a bond.
#[derive(Debug)]
pub struct BondClaim {
    pub bond_id: u32,
    pub claimed_by: AccountId,
    pub claim_reason: String,
    pub payout_amount: i128,
    pub claimed_at: u64,
}

impl BondClaim {
    /// A field-by-field copy.
    pub fn duplicate(&self) -> (r: BondClaim)
        ensures
            r == *self,
    {
        BondClaim {
            bond_id: self.bond_id,
            claimed_by: self.claimed_by,
            claim_reason: self.claim_reason.clone(),
            payout_amount: self.payout_amount,
            claimed_at: self.claimed_at,
        }
    }
}

/// Whether `funder` is among the funders.
pub open spec fn is_funder_in(funds: Seq<GrantFund>, funder: AccountId) -> bool {
    exists|i: int| 0 <= i < funds.len() && (#[trigger] funds[i]).funder == funder
}

/// The bonds by grant, the grant of each bond id, the claims by bond id, and the counter of
/// bond ids.
pub struct BondBook {
    bonds: HashMap<u64, PerformanceBond>,
    bond_grant: HashMap<u32, u64>,
    claims: HashMap<u32, BondClaim>,
    counter: u32,
}

impl BondBook {
    pub closed spec fn bonds(&self) -> Map<u64, PerformanceBond> {
        self.bonds@
    }

    /// The grant a bond id belongs to.
    pub closed spec fn bond_grant(&self) -> Map<u32, u64> {
        self.bond_grant@
    }

    pub closed spec fn claims(&self) -> Map<u32, BondClaim> {
        self.claims@
    }

    pub closed spec fn counter(&self) -> u32 {
        self.counter
    }

    pub fn new() -> (b: BondBook)
        ensures
            b.bonds() == Map::<u64, PerformanceBond>::empty(),
            b.bond_grant() == Map::<u32, u64>::empty(),
            b.claims() == Map::<u32, BondClaim>::empty(),
            b.counter() == 0,
    {
        BondBook { bonds: HashMap::new(), bond_grant: HashMap::new(), claims: HashMap::new(), counter: 0 }
    }

    /// The grant owner requires a bond of `amount` in `token`, to be posted within
    /// `ttl_ledgers` from `now`; returns the new bond's id.
    pub fn require_bond(
        &mut self,
        grants: &GrantBook,
        owner: AccountId,
        grant_id: u64,
        token: AccountId,
        amount: i128,
        ttl_ledgers: u32,
        now: u64,
    ) -> (r: Result<u32, ContractError>)
        requires
            old(self).counter() < u32::MAX,
            now + ttl_ledgers <= u64::MAX,
        ensures
            final(self).claims() == old(self).claims(),
            ({
                let found = grants.grants().contains_key(grant_id);
                let g = grants.grants()[grant_id];
                let id = (old(self).counter() + 1) as u32;
                &&& !found ==> r == Err::<u32, ContractError>(ContractError::GrantNotFound)
                &&& found && g.owner != owner ==> r == Err::<u32, ContractError>(ContractError::Unauthorized)
                &&& found && g.owner == owner && amount <= 0 ==> r == Err::<u32, ContractError>(ContractError::InvalidInput)
                &&& found && g.owner == owner && amount > 0 && old(self).bonds().contains_key(grant_id) ==> r == Err::<
                    u32,
                    ContractError,
                >(ContractError::AlreadyRegistered)
                &&& r is Ok <==> found && g.owner == owner && amount > 0 && !old(self).bonds().contains_key(grant_id)
                &&& r is Err ==> final(self).bonds() == old(self).bonds() && final(self).bond_grant() == old(self).bond_grant()
                    && final(self).counter() == old(self).counter()
                &&& r is Ok ==> {
                    &&& r == Ok::<u32, ContractError>(id)
                    &&& final(self).counter() == id
                    &&& final(self).bonds() == old(self).bonds().insert(grant_id, PerformanceBond {
                        id,
                        grant_id,
                        principal: g.owner,
                        guarantor: g.owner,
                        bond_amount: amount,
                        token,
                        status: BondStatus::Pending,
                        posted_at: None,
                        expires_at: (now + ttl_ledgers) as u64,
                    })
                    &&& final(self).bond_grant() == old(self).bond_grant().insert(id, grant_id)
                }
            }),
    {
        let grant_owner = match grants.get(grant_id) {
            Some(g) => g.owner,
            None => return Err(ContractError::GrantNotFound),
        };
        if grant_owner != owner {
            return Err(ContractError::Unauthorized);
        }
        if amount <= 0 {
            return Err(ContractError::InvalidInput);
        }
        if self.bonds.contains_key(&grant_id) {
            return Err(ContractError::AlreadyRegistered);
        }
        let bond_id = self.counter + 1;
        self.counter = bond_id;
        let bond = PerformanceBond {
            id: bond_id,
            grant_id,
            principal: grant_owner,
            guarantor: grant_owner,
            bond_amount: amount,
            token,
            status: BondStatus::Pending,
            posted_at: None,
            expires_at: now + ttl_ledgers as u64,
        };
        self.bonds.insert(grant_id, bond);
        self.bond_grant.insert(bond_id, grant_id);
        Ok(bond_id)
    }

    /// A guarantor posts a pending, unexpired bond by paying its amount in.
    pub fn post_bond(&mut self, guarantor: AccountId, bond_id: u32, now: u64, transfers: &mut Vec<Transfer>) -> (r: Result<
        (),
        ContractError,
    >)
        ensures
            final(self).claims() == old(self).claims(),
            final(self).bond_grant() == old(self).bond_grant(),
            final(self).counter() == old(self).counter(),
            ({
                let has_id = old(self).bond_grant().contains_key(bond_id);
                let gid = old(self).bond_grant()[bond_id];
                let found = old(self).bonds().contains_key(gid);
                let b = old(self).bonds()[gid];
                &&& !has_id ==> r == Err::<(), ContractError>(ContractError::BondNotFound)
                &&& has_id && !found ==> r == Err::<(), ContractError>(ContractError::BondNotFound)
                &&& has_id && found && b.status != BondStatus::Pending ==> r == Err::<(), ContractError>(
                    ContractError::BondAlreadyPosted)
                &&& has_id && found && b.status == BondStatus::Pending && now > b.expires_at ==> r == Err::<(), ContractError>(
                    ContractError::BondExpired)
                &&& r is Ok <==> has_id && found && b.status == BondStatus::Pending && now <= b.expires_at
                &&& r is Err ==> final(self).bonds() == old(self).bonds() && final(transfers)@ == old(transfers)@
                &&& r is Ok ==> final(self).bonds() == old(self).bonds().insert(gid, PerformanceBond {
                    guarantor,
                    status: BondStatus::Active,
                    posted_at: Some(now),
                    ..b
                }) && final(transfers)@ == old(transfers)@.push(Transfer { token: b.token, from: guarantor, to: CONTRACT_ACCOUNT,
                    amount: b.bond_amount })
            }),
    {
        let grant_id = match self.bond_grant.get(&bond_id) {
            Some(g) => *g,
            None => return Err(ContractError::BondNotFound),
        };
        let bond = match self.bonds.get(&grant_id) {
            Some(b) => *b,
            None => return Err(ContractError::BondNotFound),
        };
        if bond.status != BondStatus::Pending {
            return Err(ContractError::BondAlreadyPosted);
        }
        if now > bond.expires_at {
            return Err(ContractError::BondExpired);
        }
        transfers.push(Transfer { token: bond.token, from: guarantor, to: CONTRACT_ACCOUNT, amount: bond.bond_amount });
        self.bonds.insert(grant_id, PerformanceBond { guarantor, status: BondStatus::Active, posted_at: Some(now), ..bond });
        Ok(())
    }

    /// Return an active bond to its guarantor once the grant succeeded (nothing without a
    /// bond).
    pub fn release_bond(&mut self, grant_id: u64, transfers: &mut Vec<Transfer>) -> (r: Result<(), ContractError>)
        ensures
            final(self).claims() == old(self).claims(),
            final(self).bond_grant() == old(self).bond_grant(),
            final(self).counter() == old(self).counter(),
            ({
                let found = old(self).bonds().contains_key(grant_id);
                let b = old(self).bonds()[grant_id];
                &&& !found ==> r == Ok::<(), ContractError>(()) && final(self).bonds() == old(self).bonds() && final(transfers)@
                    == old(transfers)@
                &&& found && b.status != BondStatus::Active ==> r == Err::<(), ContractError>(ContractError::BondNotActive)
                    && final(self).bonds() == old(self).bonds() && final(transfers)@ == old(transfers)@
                &&& found && b.status == BondStatus::Active ==> r == Ok::<(), ContractError>(()) && final(self).bonds() == old(
                    self,
                ).bonds().insert(grant_id, PerformanceBond { status: BondStatus::Released, ..b }) && final(transfers)@ == old(
                    transfers,
                )@.push(Transfer { token: b.token, from: CONTRACT_ACCOUNT, to: b.guarantor, amount: b.bond_amount })
            }),
    {
        let bond = match self.bonds.get(&grant_id) {
            Some(b) => *b,
            None => return Ok(()),
        };
        if bond.status != BondStatus::Active {
            return Err(ContractError::BondNotActive);
        }
        transfers.push(Transfer { token: bond.token, from: CONTRACT_ACCOUNT, to: bond.guarantor, amount: bond.bond_amount });
        self.bonds.insert(grant_id, PerformanceBond { status: BondStatus::Released, ..bond });
        Ok(())
    }

    /// A funder of the grant claims its active bond after the grant was cancelled or the
    /// bond expired; the whole bond goes to the funder.
    pub fn claim_bond(
        &mut self,
        grants: &GrantBook,
        funder: AccountId,
        grant_id: u64,
        reason: String,
        now: u64,
        transfers: &mut Vec<Transfer>,
    ) -> (r: Result<BondClaim, ContractError>)
        ensures
            final(self).bond_grant() == old(self).bond_grant(),
            final(self).counter() == old(self).counter(),
            ({
                let found = grants.grants().contains_key(grant_id);
                let g = grants.grants()[grant_id];
                let has_bond = old(self).bonds().contains_key(grant_id);
                let b = old(self).bonds()[grant_id];
                let claimable = now > b.expires_at || g.status == GrantStatus::Cancelled;
                let claim = BondClaim { bond_id: b.id, claimed_by: funder, claim_reason: reason, payout_amount: b.bond_amount,
                    claimed_at: now };
                &&& !found ==> r == Err::<BondClaim, ContractError>(ContractError::GrantNotFound)
                &&& found && !is_funder_in(g.funders@, funder) ==> r == Err::<BondClaim, ContractError>(
                    ContractError::Unauthorized)
                &&& found && is_funder_in(g.funders@, funder) && !has_bond ==> r == Err::<BondClaim, ContractError>(
                    ContractError::BondNotFound)
                &&& found && is_funder_in(g.funders@, funder) && has_bond && b.status != BondStatus::Active ==> r == Err::<
                    BondClaim,
                    ContractError,
                >(ContractError::BondNotActive)
                &&& found && is_funder_in(g.funders@, funder) && has_bond && b.status == BondStatus::Active && !claimable ==> r
                    == Err::<BondClaim, ContractError>(ContractError::InvalidState)
                &&& r is Ok <==> found && is_funder_in(g.funders@, funder) && has_bond && b.status == BondStatus::Active
                    && claimable
                &&& r is Err ==> final(self).bonds() == old(self).bonds() && final(self).claims() == old(self).claims()
                    && final(transfers)@ == old(transfers)@
                &&& r is Ok ==> {
                    &&& r == Ok::<BondClaim, ContractError>(claim)
                    &&& final(self).bonds() == old(self).bonds().insert(grant_id, PerformanceBond {
                        status: BondStatus::Claimed,
                        ..b
                    })
                    &&& final(self).claims() == old(self).claims().insert(b.id, claim)
                    &&& final(transfers)@ == old(transfers)@.push(Transfer { token: b.token, from: CONTRACT_ACCOUNT, to: funder,
                        amount: b.bond_amount })
                }
            }),
    {
        let (is_funder, status) = match grants.get(grant_id) {
            Some(g) => (funds_contain(&g.funders, funder), g.status),
            None => return Err(ContractError::GrantNotFound),
        };
        if !is_funder {
            return Err(ContractError::Unauthorized);
        }
        let bond = match self.bonds.get(&grant_id) {
            Some(b) => *b,
            None => return Err(ContractError::BondNotFound),
        };
        if bond.status != BondStatus::Active {
            return Err(ContractError::BondNotActive);
        }
        let expired = now > bond.expires_at;
        let cancelled = status == GrantStatus::Cancelled;
        if !expired && !cancelled {
            return Err(ContractError::InvalidState);
        }
        let payout = bond.bond_amount;
        transfers.push(Transfer { token: bond.token, from: CONTRACT_ACCOUNT, to: funder, amount: payout });
        self.bonds.insert(grant_id, PerformanceBond { status: BondStatus::Claimed, ..bond });
        let claim = BondClaim { bond_id: bond.id, claimed_by: funder, claim_reason: reason, payout_amount: payout, claimed_at: now };
        let stored = claim.duplicate();
        self.claims.insert(bond.id, stored);
        Ok(claim)
    }

    /// The bond of a grant.
    pub fn get_bond(&self, grant_id: u64) -> (r: Option<PerformanceBond>)
        ensures
            r == (if self.bonds().contains_key(grant_id) { Some(self.bonds()[grant_id]) } else { None }),
    {
        match self.bonds.get(&grant_id) {
            Some(b) => Some(*b),
            None => None,
        }
    }

    /// Whether a grant has a posted, active bond.
    pub fn has_active_bond(&self, grant_id: u64) -> (r: bool)
        ensures
            r == (self.bonds().contains_key(grant_id) && self.bonds()[grant_id].status == BondStatus::Active),
    {
        match self.bonds.get(&grant_id) {
            Some(b) => b.status == BondStatus::Active,
            None => false,
        }
    }
}

/// Whether `funder` is among the funders.
pub fn funds_contain(funds: &Vec<GrantFund>, funder: AccountId) -> (r: bool)
    ensures
        r == is_funder_in(funds@, funder),
{
    let i = crate::grants::find_funder(funds, funder);
    proof {
        if is_funder_in(funds@, funder) {
            let k = choose|k: int| 0 <= k < funds@.len() && (#[trigger] funds@[k]).funder == funder;
            assert(i as int <= k || funds@[k].funder != funder);
        }
    }
    i < funds.len()
}

} // verus!
