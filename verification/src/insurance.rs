use vstd::prelude::*;
use std::collections::HashMap;

use crate::arith::{div_trunc, min_int};
use crate::constants::{
    BASIS_POINTS_SCALE, CONTRACT_ACCOUNT, DEFAULT_INSURANCE_DURATION_LEDGERS, DEFAULT_INSURANCE_PREMIUM_RATE_BPS,
};
use crate::errors::ContractError;
use crate::keys::Transfer;
use crate::types::{AccountId, InsuranceClaimStatus};

verus! {

/// The payload of the event published when an insurance claim is paid.
#[derive(Clone, Copy, Debug, PartialEq, Eq, Structural)]
pub struct ClaimApproved {
    pub claim_id: u32,
    pub payout_amount: i128,
}

/// The payload of the event published when an insurance claim is refused.
#[derive(Clone, Copy, Debug, PartialEq, Eq, Structural)]
pub struct ClaimRejected {
    pub claim_id: u32,
}


broadcast use vstd::std_specs::hash::group_hash_axioms;

/// An insurance policy on a grant.
#[derive(Clone, Copy, Debug, PartialEq, Eq, Structural)]
pub struct InsurancePolicy {
    pub grant_id: u64,
    pub policyholder: AccountId,
    pub token: AccountId,
    pub coverage_amount: i128,
    pub premium_paid: i128,
    pub issued_at: u64,
    pub expires_at: u64,
    pub active: bool,
}

/// A claim against a grant's policy.
#[derive(Debug)]
pub struct InsuranceClaim {
    pub id: u32,
    pub policy_grant_id: u64,
    pub claimant: AccountId,
    pub claimed_amount: i128,
    pub reason: String,
    pub status: InsuranceClaimStatus,
    pub submitted_at: u64,
    pub resolved_at: Option<u64>,
    pub payout_amount: Option<i128>,
}

impl InsuranceClaim {
    /// A field-by-field copy.
    pub fn duplicate(&self) -> (r: InsuranceClaim)
        ensures
            r == *self,
    {
        InsuranceClaim {
            id: self.id,
            policy_grant_id: self.policy_grant_id,
            claimant: self.claimant,
            claimed_amount: self.claimed_amount,
            reason: self.reason.clone(),
            status: self.status,
            submitted_at: self.submitted_at,
            resolved_at: self.resolved_at,
            payout_amount: self.payout_amount,
        }
    }
}

/// The premium of a coverage: `coverage * 50 / 10000`, truncated.
pub open spec fn spec_premium(coverage: int) -> int {
    div_trunc(coverage * DEFAULT_INSURANCE_PREMIUM_RATE_BPS, BASIS_POINTS_SCALE as int)
}

/// A claim can still be decided.
pub open spec fn is_open_claim(s: InsuranceClaimStatus) -> bool {
    s == InsuranceClaimStatus::Submitted || s == InsuranceClaimStatus::UnderReview
}

/// Policies by grant, claims by id, the claim counter and the pool balance of each token.
pub struct InsuranceBook {
    policies: HashMap<u64, InsurancePolicy>,
    claims: HashMap<u32, InsuranceClaim>,
    claim_counter: u32,
    pools: HashMap<u64, i128>,
}

impl InsuranceBook {
    pub closed spec fn policies(&self) -> Map<u64, InsurancePolicy> {
        self.policies@
    }

    pub closed spec fn claims(&self) -> Map<u32, InsuranceClaim> {
        self.claims@
    }

    pub closed spec fn claim_counter(&self) -> u32 {
        self.claim_counter
    }

    /// The insurance pool of a token (0 when nothing was paid in).
    pub closed spec fn pool(&self, token: AccountId) -> i128 {
        if self.pools@.contains_key(token) { self.pools@[token] } else { 0 }
    }

    pub fn new() -> (b: InsuranceBook)
        ensures
            b.policies() == Map::<u64, InsurancePolicy>::empty(),
            b.claims() == Map::<u32, InsuranceClaim>::empty(),
            b.claim_counter() == 0,
            forall|t: AccountId| #[trigger] b.pool(t) == 0,
    {
        InsuranceBook { policies: HashMap::new(), claims: HashMap::new(), claim_counter: 0, pools: HashMap::new() }
    }

    /// Set the pool balance of a token.
    pub fn set_pool(&mut self, token: AccountId, balance: i128)
        ensures
            forall|t: AccountId| #[trigger] final(self).pool(t) == if t == token { balance } else { old(self).pool(t) },
            final(self).policies() == old(self).policies(),
            final(self).claims() == old(self).claims(),
            final(self).claim_counter() == old(self).claim_counter(),
    {
        self.pools.insert(token, balance);
    }

    /// Insure a grant for `coverage_amount`; the premium (0.5% of the coverage) is paid into
    /// the token's pool, and the policy runs for the default duration from `now`.
    pub fn purchase_policy(
        &mut self,
        policyholder: AccountId,
        grant_id: u64,
        token: AccountId,
        coverage_amount: i128,
        now: u64,
        transfers: &mut Vec<Transfer>,
    ) -> (r: Result<InsurancePolicy, ContractError>)
        ensures
            final(self).claims() == old(self).claims(),
            final(self).claim_counter() == old(self).claim_counter(),
            ({
                let premium = spec_premium(coverage_amount as int);
                let ok = coverage_amount > 0 && !old(self).policies().contains_key(grant_id) && coverage_amount
                    * DEFAULT_INSURANCE_PREMIUM_RATE_BPS <= i128::MAX && old(self).pool(token) + premium <= i128::MAX && now
                    + DEFAULT_INSURANCE_DURATION_LEDGERS <= u64::MAX;
                let policy = InsurancePolicy {
                    grant_id,
                    policyholder,
                    token,
                    coverage_amount,
                    premium_paid: premium as i128,
                    issued_at: now,
                    expires_at: (now + DEFAULT_INSURANCE_DURATION_LEDGERS) as u64,
                    active: true,
                };
                &&& coverage_amount <= 0 ==> r == Err::<InsurancePolicy, ContractError>(ContractError::InvalidInput)
                &&& coverage_amount > 0 && old(self).policies().contains_key(grant_id) ==> r == Err::<
                    InsurancePolicy,
                    ContractError,
                >(ContractError::AlreadyRegistered)
                &&& coverage_amount > 0 && !old(self).policies().contains_key(grant_id) && !ok ==> r == Err::<
                    InsurancePolicy,
                    ContractError,
                >(ContractError::InvalidInput)
                &&& r is Ok <==> ok
                &&& r is Err ==> final(self).policies() == old(self).policies() && (forall|t: AccountId| #[trigger] final(
                    self).pool(t) == old(self).pool(t)) && final(transfers)@ == old(transfers)@
                &&& r is Ok ==> {
                    &&& r == Ok::<InsurancePolicy, ContractError>(policy)
                    &&& final(self).policies() == old(self).policies().insert(grant_id, policy)
                    &&& forall|t: AccountId| #[trigger] final(self).pool(t) == if t == token {
                        old(self).pool(token) + premium
                    } else {
                        old(self).pool(t) as int
                    }
                    &&& final(transfers)@ == if premium > 0 {
                        old(transfers)@.push(Transfer { token, from: policyholder, to: CONTRACT_ACCOUNT, amount: premium as i128 })
                    } else {
                        old(transfers)@
                    }
                }
            }),
    {
        if coverage_amount <= 0 {
            return Err(ContractError::InvalidInput);
        }
        if self.policies.contains_key(&grant_id) {
            return Err(ContractError::AlreadyRegistered);
        }
        let scaled = match coverage_amount.checked_mul(DEFAULT_INSURANCE_PREMIUM_RATE_BPS as i128) {
            Some(p) => p,
            None => return Err(ContractError::InvalidInput),
        };
        let premium = scaled / (BASIS_POINTS_SCALE as i128);
        let pool_balance: i128 = match self.pools.get(&token) {
            Some(b) => *b,
            None => 0,
        };
        let new_pool = match pool_balance.checked_add(premium) {
            Some(b) => b,
            None => return Err(ContractError::InvalidInput),
        };
        let expires_at = match now.checked_add(DEFAULT_INSURANCE_DURATION_LEDGERS as u64) {
            Some(e) => e,
            None => return Err(ContractError::InvalidInput),
        };
        if premium > 0 {
            transfers.push(Transfer { token, from: policyholder, to: CONTRACT_ACCOUNT, amount: premium });
        }
        self.pools.insert(token, new_pool);
        let policy = InsurancePolicy {
            grant_id,
            policyholder,
            token,
            coverage_amount,
            premium_paid: premium,
            issued_at: now,
            expires_at,
            active: true,
        };
        self.policies.insert(grant_id, policy);
        Ok(policy)
    }

    /// File a claim against an active, unexpired policy; returns the new claim's id.
    pub fn file_claim(&mut self, claimant: AccountId, grant_id: u64, claimed_amount: i128, reason: String, now: u64) -> (r:
        Result<u32, ContractError>)
        requires
            old(self).claim_counter() < u32::MAX,
        ensures
            final(self).policies() == old(self).policies(),
            forall|t: AccountId| #[trigger] final(self).pool(t) == old(self).pool(t),
            ({
                let found = old(self).policies().contains_key(grant_id);
                let p = old(self).policies()[grant_id];
                let id = (old(self).claim_counter() + 1) as u32;
                &&& claimed_amount <= 0 ==> r == Err::<u32, ContractError>(ContractError::InvalidInput)
                &&& claimed_amount > 0 && !found ==> r == Err::<u32, ContractError>(ContractError::PolicyNotFound)
                &&& claimed_amount > 0 && found && !p.active ==> r == Err::<u32, ContractError>(ContractError::PolicyInactive)
                &&& claimed_amount > 0 && found && p.active && now > p.expires_at ==> r == Err::<u32, ContractError>(
                    ContractError::PolicyExpired)
                &&& r is Ok <==> claimed_amount > 0 && found && p.active && now <= p.expires_at
                &&& r is Err ==> final(self).claims() == old(self).claims() && final(self).claim_counter() == old(
                    self).claim_counter()
                &&& r is Ok ==> r == Ok::<u32, ContractError>(id) && final(self).claim_counter() == id && final(self).claims()
                    == old(self).claims().insert(id, InsuranceClaim {
                    id,
                    policy_grant_id: grant_id,
                    claimant,
                    claimed_amount,
                    reason,
                    status: InsuranceClaimStatus::Submitted,
                    submitted_at: now,
                    resolved_at: None,
                    payout_amount: None,
                })
            }),
    {
        if claimed_amount <= 0 {
            return Err(ContractError::InvalidInput);
        }
        let policy = match self.policies.get(&grant_id) {
            Some(p) => *p,
            None => return Err(ContractError::PolicyNotFound),
        };
        if !policy.active {
            return Err(ContractError::PolicyInactive);
        }
        if now > policy.expires_at {
            return Err(ContractError::PolicyExpired);
        }
        let claim_id = self.claim_counter + 1;
        self.claim_counter = claim_id;
        let claim = InsuranceClaim {
            id: claim_id,
            policy_grant_id: grant_id,
            claimant,
            claimed_amount,
            reason,
            status: InsuranceClaimStatus::Submitted,
            submitted_at: now,
            resolved_at: None,
            payout_amount: None,
        };
        self.claims.insert(claim_id, claim);
        Ok(claim_id)
    }

    /// Pay out an open claim: the smallest of the amount approved, the amount claimed, the
    /// coverage and the pool balance, which must be positive.
    pub fn approve_claim(&mut self, claim_id: u32, payout_amount: i128, now: u64, transfers: &mut Vec<Transfer>) -> (r: Result<
        (),
        ContractError,
    >)
        ensures
            final(self).policies() == old(self).policies(),
            final(self).claim_counter() == old(self).claim_counter(),
            ({
                let found = old(self).claims().contains_key(claim_id);
                let c = old(self).claims()[claim_id];
                let has_policy = old(self).policies().contains_key(c.policy_grant_id);
                let p = old(self).policies()[c.policy_grant_id];
                let pay = min_int(min_int(min_int(payout_amount as int, c.claimed_amount as int), p.coverage_amount as int),
                    old(self).pool(p.token) as int);
                &&& payout_amount <= 0 ==> r == Err::<(), ContractError>(ContractError::InvalidInput)
                &&& payout_amount > 0 && !found ==> r == Err::<(), ContractError>(ContractError::ClaimNotFound)
                &&& payout_amount > 0 && found && !is_open_claim(c.status) ==> r == Err::<(), ContractError>(
                    ContractError::ClaimAlreadyResolved)
                &&& payout_amount > 0 && found && is_open_claim(c.status) && !has_policy ==> r == Err::<(), ContractError>(
                    ContractError::PolicyNotFound)
                &&& payout_amount > 0 && found && is_open_claim(c.status) && has_policy && pay <= 0 ==> r == Err::<
                    (),
                    ContractError,
                >(ContractError::InsufficientPoolBalance)
                &&& r is Ok <==> payout_amount > 0 && found && is_open_claim(c.status) && has_policy && pay > 0
                &&& r is Err ==> final(self).claims() == old(self).claims() && (forall|t: AccountId| #[trigger] final(self).pool(
                    t) == old(self).pool(t)) && final(transfers)@ == old(transfers)@
                &&& r is Ok ==> {
                    &&& final(self).claims() == old(self).claims().insert(claim_id, InsuranceClaim {
                        status: InsuranceClaimStatus::Paid,
                        resolved_at: Some(now),
                        payout_amount: Some(pay as i128),
                        ..c
                    })
                    &&& forall|t: AccountId| #[trigger] final(self).pool(t) == if t == p.token {
                        old(self).pool(t) - pay
                    } else {
                        old(self).pool(t) as int
                    }
                    &&& final(transfers)@ == old(transfers)@.push(Transfer { token: p.token, from: CONTRACT_ACCOUNT, to: c.claimant,
                        amount: pay as i128 })
                }
            }),
    {
        if payout_amount <= 0 {
            return Err(ContractError::InvalidInput);
        }
        let mut claim = match self.claims.remove(&claim_id) {
            Some(c) => c,
            None => {
                assert(self.claims@ =~= old(self).claims@);
                return Err(ContractError::ClaimNotFound);
            },
        };
        let ghost c0 = claim;
        let ghost claims0 = old(self).claims@;
        let status = claim.status;
        if status != InsuranceClaimStatus::Submitted && status != InsuranceClaimStatus::UnderReview {
            self.claims.insert(claim_id, claim);
            assert(self.claims@ =~= claims0);
            return Err(ContractError::ClaimAlreadyResolved);
        }
        let policy = match self.policies.get(&claim.policy_grant_id) {
            Some(p) => *p,
            None => {
                self.claims.insert(claim_id, claim);
                assert(self.claims@ =~= claims0);
                return Err(ContractError::PolicyNotFound);
            },
        };
        let pool_balance: i128 = match self.pools.get(&policy.token) {
            Some(b) => *b,
            None => 0,
        };
        let mut actual = payout_amount;
        if claim.claimed_amount < actual {
            actual = claim.claimed_amount;
        }
        if policy.coverage_amount < actual {
            actual = policy.coverage_amount;
        }
        if pool_balance < actual {
            actual = pool_balance;
        }
        if actual <= 0 {
            self.claims.insert(claim_id, claim);
            assert(self.claims@ =~= claims0);
            return Err(ContractError::InsufficientPoolBalance);
        }
        self.pools.insert(policy.token, pool_balance - actual);
        claim.status = InsuranceClaimStatus::Paid;
        claim.resolved_at = Some(now);
        claim.payout_amount = Some(actual);
        let claimant = claim.claimant;
        self.claims.insert(claim_id, claim);
        transfers.push(Transfer { token: policy.token, from: CONTRACT_ACCOUNT, to: claimant, amount: actual });
        Ok(())
    }

    /// Reject an open claim.
    pub fn reject_claim(&mut self, claim_id: u32, now: u64) -> (r: Result<(), ContractError>)
        ensures
            final(self).policies() == old(self).policies(),
            final(self).claim_counter() == old(self).claim_counter(),
            forall|t: AccountId| #[trigger] final(self).pool(t) == old(self).pool(t),
            ({
                let found = old(self).claims().contains_key(claim_id);
                let c = old(self).claims()[claim_id];
                &&& !found ==> r == Err::<(), ContractError>(ContractError::ClaimNotFound)
                &&& found && !is_open_claim(c.status) ==> r == Err::<(), ContractError>(ContractError::ClaimAlreadyResolved)
                &&& r is Ok <==> found && is_open_claim(c.status)
                &&& r is Err ==> final(self).claims() == old(self).claims()
                &&& r is Ok ==> final(self).claims() == old(self).claims().insert(claim_id, InsuranceClaim {
                    status: InsuranceClaimStatus::Rejected,
                    resolved_at: Some(now),
                    ..c
                })
            }),
    {
        let mut claim = match self.claims.remove(&claim_id) {
            Some(c) => c,
            None => {
                assert(self.claims@ =~= old(self).claims@);
                return Err(ContractError::ClaimNotFound);
            },
        };
        let ghost claims0 = old(self).claims@;
        if claim.status != InsuranceClaimStatus::Submitted && claim.status != InsuranceClaimStatus::UnderReview {
            self.claims.insert(claim_id, claim);
            assert(self.claims@ =~= claims0);
            return Err(ContractError::ClaimAlreadyResolved);
        }
        claim.status = InsuranceClaimStatus::Rejected;
        claim.resolved_at = Some(now);
        self.claims.insert(claim_id, claim);
        Ok(())
    }

    /// The pool balance of a token.
    pub fn pool_balance(&self, token: AccountId) -> (r: i128)
        ensures
            r == self.pool(token),
    {
        match self.pools.get(&token) {
            Some(b) => *b,
            None => 0,
        }
    }

    /// The policy of a grant.
    pub fn get_policy(&self, grant_id: u64) -> (r: Option<InsurancePolicy>)
        ensures
            r == (if self.policies().contains_key(grant_id) { Some(self.policies()[grant_id]) } else { None }),
    {
        match self.policies.get(&grant_id) {
            Some(p) => Some(*p),
            None => None,
        }
    }

    /// A claim, by id.
    pub fn get_claim(&self, claim_id: u32) -> (r: Result<InsuranceClaim, ContractError>)
        ensures
            self.claims().contains_key(claim_id) ==> r == Ok::<InsuranceClaim, ContractError>(self.claims()[claim_id]),
            !self.claims().contains_key(claim_id) ==> r == Err::<InsuranceClaim, ContractError>(ContractError::ClaimNotFound),
    {
        match self.claims.get(&claim_id) {
            Some(c) => Ok(c.duplicate()),
            None => Err(ContractError::ClaimNotFound),
        }
    }
}

} // verus!
