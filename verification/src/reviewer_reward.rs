use vstd::prelude::*;
use std::collections::HashMap;

use crate::arith::{clamp_i128, clamp_u32, min_int};
use crate::constants::CONTRACT_ACCOUNT;
use crate::errors::ContractError;
use crate::keys::{lemma_pair_key_injective, pair_key, spec_pair_key, Transfer};
use crate::types::AccountId;

verus! {

broadcast use vstd::std_specs::hash::group_hash_axioms;

/// A assessor's votes on one grant.
#[derive(Clone, Copy, Debug, PartialEq, Eq, Structural)]
pub struct ReviewParticipation {
    pub reviewer: AccountId,
    pub grant_id: u64,
    pub votes_cast: u32,
    pub fast_votes: u32,
    pub alignment_score: u32,
    pub last_vote_at: u64,
}

/// A assessor's rewards in one token.
#[derive(Clone, Copy, Debug, PartialEq, Eq, Structural)]
pub struct ReviewerRewardRecord {
    pub reviewer: AccountId,
    pub token: AccountId,
    pub pending_amount: i128,
    pub total_earned: i128,
    pub last_claimed_at: Option<u64>,
}

/// The reward pool of one token.
#[derive(Clone, Copy, Debug, PartialEq, Eq, Structural)]
pub struct ReviewerRewardPool {
    pub token: AccountId,
    pub balance: i128,
    pub total_deposited: i128,
    pub total_paid_out: i128,
}

/// Reward pools by token, reward records by (assessor, token) and participation by
/// (assessor, grant).
pub struct RewardBook {
    pools: HashMap<u64, ReviewerRewardPool>,
    records: HashMap<u128, ReviewerRewardRecord>,
    participation: HashMap<u128, ReviewParticipation>,
}

impl RewardBook {
    pub closed spec fn pool(&self, token: AccountId) -> Option<ReviewerRewardPool> {
        if self.pools@.contains_key(token) { Some(self.pools@[token]) } else { None }
    }

    pub closed spec fn record(&self, reviewer: AccountId, token: AccountId) -> Option<ReviewerRewardRecord> {
        let k = spec_pair_key(reviewer, token);
        if self.records@.contains_key(k) { Some(self.records@[k]) } else { None }
    }

    pub closed spec fn participation(&self, reviewer: AccountId, grant_id: u64) -> Option<ReviewParticipation> {
        let k = spec_pair_key(reviewer, grant_id);
        if self.participation@.contains_key(k) { Some(self.participation@[k]) } else { None }
    }

    pub fn new() -> (b: RewardBook)
        ensures
            forall|t: AccountId| #[trigger] b.pool(t) is None,
            forall|r: AccountId, t: AccountId| #[trigger] b.record(r, t) is None,
            forall|r: AccountId, g: u64| #[trigger] b.participation(r, g) is None,
    {
        RewardBook { pools: HashMap::new(), records: HashMap::new(), participation: HashMap::new() }
    }

    /// Add `amount` to a token's pool (nothing for a non-positive amount; saturating).
    pub fn fund_pool(&mut self, token: AccountId, amount: i128)
        ensures
            forall|r: AccountId, t: AccountId| #[trigger] final(self).record(r, t) == old(self).record(r, t),
            forall|r: AccountId, g: u64| #[trigger] final(self).participation(r, g) == old(self).participation(r, g),
            amount <= 0 ==> forall|t: AccountId| #[trigger] final(self).pool(t) == old(self).pool(t),
            amount > 0 ==> forall|t: AccountId| #[trigger] final(self).pool(t) == if t == token {
                let p = match old(self).pool(token) {
                    Some(p) => p,
                    None => ReviewerRewardPool { token, balance: 0, total_deposited: 0, total_paid_out: 0 },
                };
                Some(ReviewerRewardPool {
                    balance: clamp_i128(p.balance + amount) as i128,
                    total_deposited: clamp_i128(p.total_deposited + amount) as i128,
                    ..p
                })
            } else {
                old(self).pool(t)
            },
    {
        if amount <= 0 {
            return;
        }
        let p = match self.pools.get(&token) {
            Some(p) => *p,
            None => ReviewerRewardPool { token, balance: 0, total_deposited: 0, total_paid_out: 0 },
        };
        let np = ReviewerRewardPool {
            balance: crate::arith::sat_add_i128(p.balance, amount),
            total_deposited: crate::arith::sat_add_i128(p.total_deposited, amount),
            ..p
        };
        self.pools.insert(token, np);
    }

    /// Count a assessor's vote on a grant (and a fast vote when it was fast), at `now`.
    pub fn record_participation(&mut self, reviewer: AccountId, grant_id: u64, was_fast: bool, now: u64)
        ensures
            forall|t: AccountId| #[trigger] final(self).pool(t) == old(self).pool(t),
            forall|r: AccountId, t: AccountId| #[trigger] final(self).record(r, t) == old(self).record(r, t),
            forall|r: AccountId, g: u64| #[trigger] final(self).participation(r, g) == if r == reviewer && g == grant_id {
                let p = match old(self).participation(reviewer, grant_id) {
                    Some(p) => p,
                    None => ReviewParticipation {
                        reviewer,
                        grant_id,
                        votes_cast: 0,
                        fast_votes: 0,
                        alignment_score: 0,
                        last_vote_at: 0,
                    },
                };
                Some(ReviewParticipation {
                    votes_cast: clamp_u32(p.votes_cast + 1) as u32,
                    fast_votes: if was_fast { clamp_u32(p.fast_votes + 1) as u32 } else { p.fast_votes },
                    last_vote_at: now,
                    ..p
                })
            } else {
                old(self).participation(r, g)
            },
    {
        let k = pair_key(reviewer, grant_id);
        let p = match self.participation.get(&k) {
            Some(p) => *p,
            None => ReviewParticipation { reviewer, grant_id, votes_cast: 0, fast_votes: 0, alignment_score: 0, last_vote_at: 0 },
        };
        let np = ReviewParticipation {
            votes_cast: p.votes_cast.saturating_add(1),
            fast_votes: if was_fast { p.fast_votes.saturating_add(1) } else { p.fast_votes },
            last_vote_at: now,
            ..p
        };
        self.participation.insert(k, np);
        proof {
            assert forall|r: AccountId, g: u64| #[trigger] self.participation(r, g) == if r == reviewer && g == grant_id {
                Some(np)
            } else {
                old(self).participation(r, g)
            } by {
                lemma_pair_key_injective(r, g, reviewer, grant_id);
            }
        }
    }

    /// Store a assessor's reward record for a token.
    pub fn set_reward_record(&mut self, record: ReviewerRewardRecord)
        ensures
            forall|t: AccountId| #[trigger] final(self).pool(t) == old(self).pool(t),
            forall|r: AccountId, g: u64| #[trigger] final(self).participation(r, g) == old(self).participation(r, g),
            forall|r: AccountId, t: AccountId| #[trigger] final(self).record(r, t) == if r == record.reviewer && t
                == record.token {
                Some(record)
            } else {
                old(self).record(r, t)
            },
    {
        self.records.insert(pair_key(record.reviewer, record.token), record);
        proof {
            assert forall|r: AccountId, t: AccountId| #[trigger] self.record(r, t) == if r == record.reviewer && t
                == record.token {
                Some(record)
            } else {
                old(self).record(r, t)
            } by {
                lemma_pair_key_injective(r, t, record.reviewer, record.token);
            }
        }
    }

    /// A assessor's reward entitlement in a token: what is pending on its record (0 without
    /// one).
    pub fn compute_reward(
        &self,
        reviewer: AccountId,
        token: AccountId,
        total_possible_votes: u32,
        base_reward: i128,
        fast_bonus_bps: u32,
    ) -> (r: i128)
        ensures
            r == match self.record(reviewer, token) {
                Some(rec) => rec.pending_amount,
                None => 0,
            },
    {
        match self.get_reward_record(reviewer, token) {
            Some(rec) => rec.pending_amount,
            None => 0,
        }
    }

    /// Accrue a assessor's pending reward into its total earned (creating an empty record
    /// when there is none); returns the amount accrued.
    pub fn accrue_reward(&mut self, reviewer: AccountId, token: AccountId) -> (r: Result<i128, ContractError>)
        ensures
            forall|t: AccountId| #[trigger] final(self).pool(t) == old(self).pool(t),
            forall|rr: AccountId, g: u64| #[trigger] final(self).participation(rr, g) == old(self).participation(rr, g),
            ({
                let rec = match old(self).record(reviewer, token) {
                    Some(rec) => rec,
                    None => ReviewerRewardRecord { reviewer, token, pending_amount: 0, total_earned: 0, last_claimed_at: None },
                };
                let fits = rec.total_earned + rec.pending_amount <= i128::MAX && rec.total_earned + rec.pending_amount
                    >= i128::MIN;
                &&& !fits ==> r == Err::<i128, ContractError>(ContractError::InvalidInput)
                &&& fits ==> r == Ok::<i128, ContractError>(rec.pending_amount)
                &&& r is Err ==> forall|rr: AccountId, t: AccountId| #[trigger] final(self).record(rr, t) == old(self).record(rr, t)
                &&& r is Ok ==> forall|rr: AccountId, t: AccountId| #[trigger] final(self).record(rr, t) == if rr == reviewer && t
                    == token {
                    Some(ReviewerRewardRecord { total_earned: (rec.total_earned + rec.pending_amount) as i128, ..rec })
                } else {
                    old(self).record(rr, t)
                }
            }),
    {
        let rec = match self.get_reward_record(reviewer, token) {
            Some(rec) => rec,
            None => ReviewerRewardRecord { reviewer, token, pending_amount: 0, total_earned: 0, last_claimed_at: None },
        };
        let accrued = rec.pending_amount;
        let total_earned = match rec.total_earned.checked_add(accrued) {
            Some(t) => t,
            None => return Err(ContractError::InvalidInput),
        };
        let updated = ReviewerRewardRecord { total_earned, ..rec };
        self.records.insert(pair_key(reviewer, token), updated);
        proof {
            assert forall|rr: AccountId, t: AccountId| #[trigger] self.record(rr, t) == if rr == reviewer && t == token {
                Some(updated)
            } else {
                old(self).record(rr, t)
            } by {
                lemma_pair_key_injective(rr, t, reviewer, token);
            }
        }
        Ok(accrued)
    }

    /// A assessor claims its pending reward, up to what the pool holds; returns the amount
    /// paid (0, with nothing changed, when there is nothing to claim).
    pub fn claim_rewards(&mut self, reviewer: AccountId, token: AccountId, now: u64, transfers: &mut Vec<Transfer>) -> (r: Result<
        i128,
        ContractError,
    >)
        ensures
            forall|rr: AccountId, g: u64| #[trigger] final(self).participation(rr, g) == old(self).participation(rr, g),
            ({
                let rec = old(self).record(reviewer, token);
                let pool = old(self).pool(token);
                let claim = min_int(rec->0.pending_amount as int, pool->0.balance as int);
                let p = pool->0;
                &&& rec is None ==> r == Err::<i128, ContractError>(ContractError::InvalidInput)
                &&& rec is Some && pool is None ==> r == Err::<i128, ContractError>(ContractError::InvalidInput)
                &&& rec is Some && pool is Some && claim <= 0 ==> r == Ok::<i128, ContractError>(0)
                &&& rec is Some && pool is Some && claim > 0 && p.total_paid_out + claim > i128::MAX ==> r == Err::<
                    i128,
                    ContractError,
                >(ContractError::InvalidInput)
                &&& rec is Some && pool is Some && claim > 0 && p.total_paid_out + claim <= i128::MAX ==> r == Ok::<
                    i128,
                    ContractError,
                >(claim as i128)
                &&& !(r is Ok && claim > 0) ==> (forall|t: AccountId| #[trigger] final(self).pool(t) == old(self).pool(t))
                    && (forall|rr: AccountId, t: AccountId| #[trigger] final(self).record(rr, t) == old(self).record(rr, t))
                    && final(transfers)@ == old(transfers)@
                &&& r is Ok && claim > 0 ==> {
                    &&& forall|rr: AccountId, t: AccountId| #[trigger] final(self).record(rr, t) == if rr == reviewer && t
                        == token {
                        Some(ReviewerRewardRecord {
                            pending_amount: (rec->0.pending_amount - claim) as i128,
                            last_claimed_at: Some(now),
                            ..rec->0
                        })
                    } else {
                        old(self).record(rr, t)
                    }
                    &&& forall|t: AccountId| #[trigger] final(self).pool(t) == if t == token {
                        Some(ReviewerRewardPool {
                            balance: (p.balance - claim) as i128,
                            total_paid_out: (p.total_paid_out + claim) as i128,
                            ..p
                        })
                    } else {
                        old(self).pool(t)
                    }
                    &&& final(transfers)@ == old(transfers)@.push(Transfer { token, from: CONTRACT_ACCOUNT, to: reviewer,
                        amount: claim as i128 })
                }
            }),
    {
        let rec = match self.get_reward_record(reviewer, token) {
            Some(rec) => rec,
            None => return Err(ContractError::InvalidInput),
        };
        let pool = match self.pools.get(&token) {
            Some(p) => *p,
            None => return Err(ContractError::InvalidInput),
        };
        let claimable = if rec.pending_amount < pool.balance { rec.pending_amount } else { pool.balance };
        if claimable <= 0 {
            return Ok(0);
        }
        let total_paid_out = match pool.total_paid_out.checked_add(claimable) {
            Some(t) => t,
            None => return Err(ContractError::InvalidInput),
        };
        transfers.push(Transfer { token, from: CONTRACT_ACCOUNT, to: reviewer, amount: claimable });
        let updated = ReviewerRewardRecord { pending_amount: rec.pending_amount - claimable, last_claimed_at: Some(now), ..rec };
        self.records.insert(pair_key(reviewer, token), updated);
        proof {
            assert forall|rr: AccountId, t: AccountId| #[trigger] self.record(rr, t) == if rr == reviewer && t == token {
                Some(updated)
            } else {
                old(self).record(rr, t)
            } by {
                lemma_pair_key_injective(rr, t, reviewer, token);
            }
        }
        self.pools.insert(token, ReviewerRewardPool { balance: pool.balance - claimable, total_paid_out, ..pool });
        Ok(claimable)
    }

    /// A assessor's reward record in a token.
    pub fn get_reward_record(&self, reviewer: AccountId, token: AccountId) -> (r: Option<ReviewerRewardRecord>)
        ensures
            r == self.record(reviewer, token),
    {
        match self.records.get(&pair_key(reviewer, token)) {
            Some(r) => Some(*r),
            None => None,
        }
    }

    /// The balance of a token's pool (0 without one).
    pub fn pool_balance(&self, token: AccountId) -> (r: i128)
        ensures
            r == match self.pool(token) {
                Some(p) => p.balance,
                None => 0,
            },
    {
        match self.pools.get(&token) {
            Some(p) => p.balance,
            None => 0,
        }
    }

    /// A assessor's participation on a grant.
    pub fn get_participation(&self, reviewer: AccountId, grant_id: u64) -> (r: Option<ReviewParticipation>)
        ensures
            r == self.participation(reviewer, grant_id),
    {
        match self.participation.get(&pair_key(reviewer, grant_id)) {
            Some(p) => Some(*p),
            None => None,
        }
    }
}

} // verus!
