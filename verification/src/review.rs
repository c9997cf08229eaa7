use vstd::prelude::*;

use crate::constants::CONTRACT_ACCOUNT;
use crate::contract::StellarGrantsContract;
use crate::errors::ContractError;
use crate::keys::{lemma_pair_key_injective, pair_key, spec_pair_key, Transfer};
use crate::milestones::Milestone;
use crate::reputation::{record_completion, spec_score};
use crate::types::{AccountId, GrantStatus, MilestoneState};

verus! {

broadcast use vstd::std_specs::hash::group_hash_axioms;

/// Whether `a` has a vote among `votes`.
pub open spec fn spec_has_vote(votes: Seq<(AccountId, bool)>, a: AccountId) -> bool {
    exists|i: int| 0 <= i < votes.len() && #[trigger] votes[i].0 == a
}

/// Number of rejecting votes by `a` among the first `k` votes.
pub open spec fn spec_false_count(votes: Seq<(AccountId, bool)>, a: AccountId, k: int) -> int
    decreases k,
{
    if k <= 0 {
        0
    } else {
        spec_false_count(votes, a, k - 1) + if votes[k - 1] == (a, false) { 1int } else { 0int }
    }
}

fn has_vote(votes: &Vec<(AccountId, bool)>, a: AccountId) -> (r: bool)
    ensures
        r == spec_has_vote(votes@, a),
{
    let mut i: usize = 0;
    while i < votes.len()
        invariant
            i <= votes.len(),
            forall|j: int| 0 <= j < i ==> votes@[j].0 != a,
        decreases votes.len() - i,
    {
        if votes[i].0 == a {
            return true;
        }
        i += 1;
    }
    false
}

impl StellarGrantsContract {
    /// Total voting weight of the first `k` assessors listed.
    pub open spec fn spec_weight(&self, reviewers: Seq<AccountId>, k: int) -> int
        decreases k,
    {
        if k <= 0 {
            0
        } else {
            self.spec_weight(reviewers, k - 1) + self.reputation_of(reviewers[k - 1])
        }
    }

    /// Why this assessor's rejection of milestone `idx` of `grant_id` is refused, if it is.
    pub open spec fn spec_reject_check(&self, grant_id: u64, idx: u32, reviewer: AccountId) -> Result<(), ContractError> {
        let g = self.grants.views()[grant_id];
        let m = self.milestones.milestone(grant_id, idx);
        if !self.grants.views().contains_key(grant_id) {
            Err(ContractError::GrantNotFound)
        } else if m is None {
            Err(ContractError::MilestoneNotFound)
        } else if m->0.state != MilestoneState::Submitted {
            Err(ContractError::MilestoneNotSubmitted)
        } else if !g.reviewers.contains(reviewer) {
            Err(ContractError::Unauthorized)
        } else if spec_has_vote(m->0.votes@, reviewer) {
            Err(ContractError::AlreadyVoted)
        } else {
            Ok(())
        }
    }

    /// Whether the rejection reaches a weighted majority of the grant's assessors.
    pub open spec fn spec_reject_majority(&self, grant_id: u64, idx: u32, reviewer: AccountId) -> bool {
        let g = self.grants.views()[grant_id];
        let m = self.milestones.milestone(grant_id, idx)->0;
        m.rejections + self.reputation_of(reviewer) >= self.spec_weight(g.reviewers, g.reviewers.len() as int) / 2 + 1
    }

    /// The counters of a rejection stay within `u32` wherever they are reached.
    pub open spec fn spec_reject_fits(&self, grant_id: u64, idx: u32, reviewer: AccountId) -> bool {
        let g = self.grants.views()[grant_id];
        let m = self.milestones.milestone(grant_id, idx)->0;
        let votes = m.votes@.push((reviewer, false));
        self.spec_reject_check(grant_id, idx, reviewer) is Ok ==> {
            &&& m.rejections + self.reputation_of(reviewer) <= u32::MAX
            &&& forall|k: int| 0 <= k <= g.reviewers.len() ==> #[trigger] self.spec_weight(g.reviewers, k) <= u32::MAX
            &&& self.spec_reject_majority(grant_id, idx, reviewer) ==> forall|a: AccountId|
                #[trigger] self.reputation_of(a) + spec_false_count(votes, a, votes.len() as int) <= u32::MAX
        }
    }

    /// A assessor of the grant rejects a submitted milestone with a reason, with the weight of
    /// its reputation. Once the rejections reach a weighted majority the milestone is rejected
    /// and every assessor who rejected it gains a point of reputation. Returns whether that
    /// happened.
    pub fn milestone_reject(&mut self, grant_id: u64, milestone_idx: u32, reviewer: AccountId, reason: String, now: u64) -> (r:
        Result<bool, ContractError>)
        requires
            old(self).spec_reject_fits(grant_id, milestone_idx, reviewer),
        ensures
            ({
                let check = old(self).spec_reject_check(grant_id, milestone_idx, reviewer);
                let m = old(self).milestones.milestone(grant_id, milestone_idx)->0;
                let majority = old(self).spec_reject_majority(grant_id, milestone_idx, reviewer);
                let votes = m.votes@.push((reviewer, false));
                &&& check is Err ==> r == Err::<bool, ContractError>(check->Err_0) && *final(self) == *old(self)
                &&& check is Ok ==> r == Ok::<bool, ContractError>(majority)
                &&& check is Ok ==> {
                    &&& forall|g: u64, i: u32|
                        !(g == grant_id && i == milestone_idx) ==> #[trigger] final(self).milestones.milestone(g, i)
                            == old(self).milestones.milestone(g, i)
                    &&& final(self).milestones.milestone(grant_id, milestone_idx) matches Some(nm) && {
                        &&& nm.votes@ == votes
                        &&& nm.reasons@ == m.reasons@.push((reviewer, reason))
                        &&& nm == Milestone {
                            votes: nm.votes,
                            reasons: nm.reasons,
                            rejections: (m.rejections + old(self).reputation_of(reviewer)) as u32,
                            state: if majority { MilestoneState::Rejected } else { m.state },
                            status_updated_at: if majority { now } else { m.status_updated_at },
                            ..m
                        }
                    }
                    &&& forall|a: AccountId| #[trigger] final(self).reputation_of(a) == old(self).reputation_of(a) + if majority {
                        spec_false_count(votes, a, votes.len() as int)
                    } else {
                        0
                    }
                    &&& final(self).grants == old(self).grants
                    &&& final(self).escrow == old(self).escrow
                    &&& final(self).metrics == old(self).metrics
                    &&& final(self).compliance == old(self).compliance
                    &&& final(self).contributors == old(self).contributors
                    &&& final(self).reviewer_stakes == old(self).reviewer_stakes
                    &&& final(self).same_release_state(old(self))
                }
            }),
    {
        let reviewers_len = match self.grants.get(grant_id) {
            Some(g) => g.reviewers.len(),
            None => return Err(ContractError::GrantNotFound),
        };
        match self.milestones.get(grant_id, milestone_idx) {
            Some(m) => {
                if m.state != MilestoneState::Submitted {
                    return Err(ContractError::MilestoneNotSubmitted);
                }
            },
            None => return Err(ContractError::MilestoneNotFound),
        }
        let is_reviewer = crate::escrow::contains_account(&self.grants.get(grant_id).unwrap().reviewers, reviewer);
        if !is_reviewer {
            return Err(ContractError::Unauthorized);
        }
        if has_vote(&self.milestones.get(grant_id, milestone_idx).unwrap().votes, reviewer) {
            return Err(ContractError::AlreadyVoted);
        }
        let ghost g = old(self).grants.views()[grant_id];
        let reputation = self.reviewer_reputation_of(reviewer);
        let mut total_weight: u32 = 0;
        let mut k: usize = 0;
        while k < reviewers_len
            invariant
                *self == *old(self),
                old(self).grants.views().contains_key(grant_id),
                g == old(self).grants.views()[grant_id],
                reviewers_len == g.reviewers.len(),
                old(self).spec_reject_check(grant_id, milestone_idx, reviewer) is Ok,
                old(self).spec_reject_fits(grant_id, milestone_idx, reviewer),
                k <= reviewers_len,
                total_weight == self.spec_weight(g.reviewers, k as int),
            decreases reviewers_len - k,
        {
            let r = self.grants.get(grant_id).unwrap().reviewers[k];
            assert(self.spec_weight(g.reviewers, k as int + 1) <= u32::MAX);
            total_weight = total_weight + self.reviewer_reputation_of(r);
            k += 1;
        }
        let threshold = total_weight / 2 + 1;
        let mut m = self.milestones.take(grant_id, milestone_idx).unwrap();
        let ghost m0 = m;
        m.votes.push((reviewer, false));
        m.rejections = m.rejections + reputation;
        m.reasons.push((reviewer, reason));
        let majority = m.rejections >= threshold;
        let ghost votes = m.votes@;
        let ghost rep0 = *self;
        proof {
            assert forall|a: AccountId| #[trigger] rep0.reputation_of(a) == old(self).reputation_of(a) by {}
        }
        if majority {
            m.state = MilestoneState::Rejected;
            m.status_updated_at = now;
            proof {
                assert(majority == old(self).spec_reject_majority(grant_id, milestone_idx, reviewer));
                assert(votes == old(self).milestones.milestone(grant_id, milestone_idx)->0.votes@.push((reviewer, false)));
                assert forall|a: AccountId|
                    #[trigger] rep0.reputation_of(a) + spec_false_count(votes, a, votes.len() as int) <= u32::MAX by {
                    assert(rep0.reputation_of(a) == old(self).reputation_of(a));
                }
            }
            let mut i: usize = 0;
            while i < m.votes.len()
                invariant
                    votes == m.votes@,
                    i <= m.votes.len(),
                    forall|a: AccountId|
                        #[trigger] rep0.reputation_of(a) + spec_false_count(votes, a, votes.len() as int) <= u32::MAX,
                    forall|a: AccountId|
                        #[trigger] self.reputation_of(a) == rep0.reputation_of(a) + spec_false_count(votes, a, i as int),
                    self.grants == rep0.grants,
                    self.escrow == rep0.escrow,
                    self.metrics == rep0.metrics,
                    self.milestones == rep0.milestones,
                    self.compliance == rep0.compliance,
                    self.contributors == rep0.contributors,
                    self.reviewer_stakes == rep0.reviewer_stakes,
                    self.same_release_state(&rep0),
                decreases votes.len() - i,
            {
                let (voter, approve) = m.votes[i];
                if !approve {
                    let ghost mid = *self;
                    assert(spec_false_count(votes, voter, i as int + 1) == spec_false_count(votes, voter, i as int) + 1);
                    assert(spec_false_count(votes, voter, i as int + 1) <= spec_false_count(
                        votes,
                        voter,
                        votes.len() as int,
                    )) by {
                        lemma_false_count_monotone(votes, voter, i as int + 1, votes.len() as int);
                    }
                    let rep = self.reviewer_reputation_of(voter);
                    self.reviewer_reputation.insert(voter, rep + 1);
                    assert forall|a: AccountId| #[trigger] self.reputation_of(a) == rep0.reputation_of(a) + spec_false_count(
                        votes,
                        a,
                        i as int + 1,
                    ) by {
                        if a != voter {
                            assert(mid.reputation_of(a) == self.reputation_of(a));
                        }
                    }
                } else {
                    assert forall|a: AccountId| #[trigger] self.reputation_of(a) == rep0.reputation_of(a) + spec_false_count(
                        votes,
                        a,
                        i as int + 1,
                    ) by {
                        assert(votes[i as int] != (a, false));
                    }
                }
                i += 1;
            }
        }
        let ghost nm = m;
        let ghost pre = *self;
        proof {
            let om = old(self).milestones.milestone(grant_id, milestone_idx)->0;
            assert forall|a: AccountId| #[trigger] pre.reputation_of(a) == old(self).reputation_of(a) + if majority {
                spec_false_count(om.votes@.push((reviewer, false)), a, om.votes@.len() + 1 as int)
            } else {
                0
            } by {
                assert(rep0.reputation_of(a) == old(self).reputation_of(a));
                assert(votes == om.votes@.push((reviewer, false)));
            }
        }
        self.milestones.set(grant_id, milestone_idx, m);
        proof {
            assert forall|a: AccountId| #[trigger] self.reputation_of(a) == pre.reputation_of(a) by {}
            let om = old(self).milestones.milestone(grant_id, milestone_idx)->0;
            assert(majority == old(self).spec_reject_majority(grant_id, milestone_idx, reviewer));
            assert(nm.votes@ == om.votes@.push((reviewer, false)));
            assert(nm.reasons@ == om.reasons@.push((reviewer, reason)));
            assert(forall|a: AccountId| #[trigger] self.reputation_of(a) == old(self).reputation_of(a) + if majority {
                        spec_false_count(om.votes@.push((reviewer, false)), a, om.votes@.len() + 1 as int)
                    } else {
                        0
                    });
            assert(self.milestones.milestone(grant_id, milestone_idx) == Some(nm));
        }
        Ok(majority)
    }

    /// A assessor's voting weight (1 until set).
    pub fn reviewer_reputation_of(&self, reviewer: AccountId) -> (r: u32)
        ensures
            r == self.reputation_of(reviewer),
    {
        match self.reviewer_reputation.get(&reviewer) {
            Some(r) => *r,
            None => 1,
        }
    }

    fn set_stake(&mut self, grant_id: u64, reviewer: AccountId, amount: i128)
        ensures
            forall|g: u64, a: AccountId| #[trigger] final(self).stake_of(g, a) == if g == grant_id && a == reviewer {
                amount
            } else {
                old(self).stake_of(g, a)
            },
            final(self).grants == old(self).grants,
            final(self).escrow == old(self).escrow,
            final(self).metrics == old(self).metrics,
            final(self).milestones == old(self).milestones,
            final(self).compliance == old(self).compliance,
            final(self).contributors == old(self).contributors,
            final(self).reviewer_reputation == old(self).reviewer_reputation,
            final(self).treasury == old(self).treasury,
            final(self).min_reviewer_stake == old(self).min_reviewer_stake,
            final(self).same_release_state(old(self)),
    {
        self.reviewer_stakes.insert(pair_key(grant_id, reviewer), amount);
        proof {
            assert forall|g: u64, a: AccountId| #[trigger] self.stake_of(g, a) == if g == grant_id && a == reviewer {
                amount
            } else {
                old(self).stake_of(g, a)
            } by {
                lemma_pair_key_injective(g, a, grant_id, reviewer);
            }
        }
    }

    /// The stake a assessor holds on a grant.
    pub fn get_reviewer_stake(&self, grant_id: u64, reviewer: AccountId) -> (r: i128)
        ensures
            r == self.stake_of(grant_id, reviewer),
    {
        match self.reviewer_stakes.get(&pair_key(grant_id, reviewer)) {
            Some(s) => *s,
            None => 0,
        }
    }

    /// A assessor stakes `amount` of the grant's token to assess an active grant; at least the
    /// minimum stake.
    pub fn stake_to_review(&mut self, reviewer: AccountId, grant_id: u64, amount: i128, transfers: &mut Vec<Transfer>) -> (r:
        Result<(), ContractError>)
        requires
            old(self).grants.views().contains_key(grant_id) && old(self).grants.views()[grant_id].status
                == GrantStatus::Active && amount >= old(self).min_reviewer_stake ==> i128::MIN <= old(self).stake_of(
                grant_id,
                reviewer,
            ) + amount <= i128::MAX,
        ensures
            ({
                let g = old(self).grants.views()[grant_id];
                &&& !old(self).grants.views().contains_key(grant_id) ==> r == Err::<(), ContractError>(
                    ContractError::GrantNotFound)
                &&& old(self).grants.views().contains_key(grant_id) && g.status != GrantStatus::Active ==> r == Err::<
                    (),
                    ContractError,
                >(ContractError::InvalidState)
                &&& old(self).grants.views().contains_key(grant_id) && g.status == GrantStatus::Active && amount < old(
                    self,
                ).min_reviewer_stake ==> r == Err::<(), ContractError>(ContractError::InsufficientStake)
                &&& r is Ok <==> old(self).grants.views().contains_key(grant_id) && g.status == GrantStatus::Active
                    && amount >= old(self).min_reviewer_stake
                &&& r is Err ==> *final(self) == *old(self) && final(transfers)@ == old(transfers)@
                &&& r is Ok ==> {
                    &&& final(transfers)@ == old(transfers)@.push(
                        Transfer { token: g.token, from: reviewer, to: CONTRACT_ACCOUNT, amount },
                    )
                    &&& forall|gg: u64, a: AccountId| #[trigger] final(self).stake_of(gg, a) == if gg == grant_id && a
                        == reviewer {
                        (old(self).stake_of(grant_id, reviewer) + amount) as i128
                    } else {
                        old(self).stake_of(gg, a)
                    }
                    &&& final(self).grants == old(self).grants
                    &&& final(self).escrow == old(self).escrow
                    &&& final(self).metrics == old(self).metrics
                }
            }),
    {
        let token = match self.grants.get(grant_id) {
            Some(g) => {
                if g.status != GrantStatus::Active {
                    return Err(ContractError::InvalidState);
                }
                g.token
            },
            None => return Err(ContractError::GrantNotFound),
        };
        if amount < self.min_reviewer_stake {
            return Err(ContractError::InsufficientStake);
        }
        transfers.push(Transfer { token, from: reviewer, to: CONTRACT_ACCOUNT, amount });
        let current = self.get_reviewer_stake(grant_id, reviewer);
        self.set_stake(grant_id, reviewer, current + amount);
        Ok(())
    }

    /// Send a assessor's whole stake on a grant to the treasury.
    pub fn slash_reviewer(&mut self, grant_id: u64, reviewer: AccountId, transfers: &mut Vec<Transfer>) -> (r: Result<
        (),
        ContractError,
    >)
        ensures
            ({
                let g = old(self).grants.views()[grant_id];
                let stake = old(self).stake_of(grant_id, reviewer);
                &&& !old(self).grants.views().contains_key(grant_id) ==> r == Err::<(), ContractError>(
                    ContractError::GrantNotFound)
                &&& old(self).grants.views().contains_key(grant_id) && stake <= 0 ==> r == Err::<(), ContractError>(
                    ContractError::StakeNotFound)
                &&& old(self).grants.views().contains_key(grant_id) && stake > 0 && old(self).treasury is None ==> r
                    == Err::<(), ContractError>(ContractError::InvalidInput)
                &&& r is Ok <==> old(self).grants.views().contains_key(grant_id) && stake > 0 && old(self).treasury is Some
                &&& r is Err ==> *final(self) == *old(self) && final(transfers)@ == old(transfers)@
                &&& r is Ok ==> {
                    &&& final(transfers)@ == old(transfers)@.push(
                        Transfer { token: g.token, from: CONTRACT_ACCOUNT, to: old(self).treasury->0, amount: stake },
                    )
                    &&& forall|gg: u64, a: AccountId| #[trigger] final(self).stake_of(gg, a) == if gg == grant_id && a
                        == reviewer {
                        0
                    } else {
                        old(self).stake_of(gg, a)
                    }
                    &&& final(self).grants == old(self).grants
                    &&& final(self).escrow == old(self).escrow
                    &&& final(self).metrics == old(self).metrics
                }
            }),
    {
        let token = match self.grants.get(grant_id) {
            Some(g) => g.token,
            None => return Err(ContractError::GrantNotFound),
        };
        let stake = self.get_reviewer_stake(grant_id, reviewer);
        if stake <= 0 {
            return Err(ContractError::StakeNotFound);
        }
        let treasury = match self.treasury {
            Some(t) => t,
            None => return Err(ContractError::InvalidInput),
        };
        transfers.push(Transfer { token, from: CONTRACT_ACCOUNT, to: treasury, amount: stake });
        self.set_stake(grant_id, reviewer, 0);
        Ok(())
    }

    /// A assessor takes back its stake once the grant is no longer active.
    pub fn unstake(&mut self, reviewer: AccountId, grant_id: u64, transfers: &mut Vec<Transfer>) -> (r: Result<
        (),
        ContractError,
    >)
        ensures
            ({
                let g = old(self).grants.views()[grant_id];
                let stake = old(self).stake_of(grant_id, reviewer);
                &&& !old(self).grants.views().contains_key(grant_id) ==> r == Err::<(), ContractError>(
                    ContractError::GrantNotFound)
                &&& old(self).grants.views().contains_key(grant_id) && g.status == GrantStatus::Active ==> r == Err::<
                    (),
                    ContractError,
                >(ContractError::InvalidState)
                &&& old(self).grants.views().contains_key(grant_id) && g.status != GrantStatus::Active && stake <= 0
                    ==> r == Err::<(), ContractError>(ContractError::StakeNotFound)
                &&& r is Ok <==> old(self).grants.views().contains_key(grant_id) && g.status != GrantStatus::Active
                    && stake > 0
                &&& r is Err ==> *final(self) == *old(self) && final(transfers)@ == old(transfers)@
                &&& r is Ok ==> {
                    &&& final(transfers)@ == old(transfers)@.push(
                        Transfer { token: g.token, from: CONTRACT_ACCOUNT, to: reviewer, amount: stake },
                    )
                    &&& forall|gg: u64, a: AccountId| #[trigger] final(self).stake_of(gg, a) == if gg == grant_id && a
                        == reviewer {
                        0
                    } else {
                        old(self).stake_of(gg, a)
                    }
                    &&& final(self).grants == old(self).grants
                    &&& final(self).escrow == old(self).escrow
                    &&& final(self).metrics == old(self).metrics
                }
            }),
    {
        let token = match self.grants.get(grant_id) {
            Some(g) => {
                if g.status == GrantStatus::Active {
                    return Err(ContractError::InvalidState);
                }
                g.token
            },
            None => return Err(ContractError::GrantNotFound),
        };
        let stake = self.get_reviewer_stake(grant_id, reviewer);
        if stake <= 0 {
            return Err(ContractError::StakeNotFound);
        }
        transfers.push(Transfer { token, from: CONTRACT_ACCOUNT, to: reviewer, amount: stake });
        self.set_stake(grant_id, reviewer, 0);
        Ok(())
    }

    /// Whether the completion of milestone `idx` of `grant_id` was credited to its owner.
    pub open spec fn reputation_credited(&self, grant_id: u64, idx: u32) -> bool {
        self.reputation_applied@.contains_key(spec_pair_key(grant_id, idx as u64))
    }

    /// Credit the completion of a milestone to the contributor's profile, once per milestone:
    /// one more completion, the payout added to its earnings, and its score recomputed.
    pub fn update_contributor_reputation(&mut self, grant_id: u64, milestone_idx: u32, contributor: AccountId, payout_amount: i128)
        ensures
            old(self).reputation_credited(grant_id, milestone_idx) ==> *final(self) == *old(self),
            !old(self).reputation_credited(grant_id, milestone_idx) ==> {
                &&& forall|g: u64, i: u32| #[trigger] final(self).reputation_credited(g, i) == (old(self).reputation_credited(
                    g,
                    i,
                ) || (g == grant_id && i == milestone_idx))
                &&& final(self).contributors@.dom() == old(self).contributors@.dom()
                &&& forall|a: AccountId|
                    a != contributor && old(self).contributors@.contains_key(a) ==> #[trigger] final(self).contributors@[a]
                        == old(self).contributors@[a]
                &&& old(self).contributors@.contains_key(contributor) ==> {
                    let p = old(self).contributors@[contributor];
                    let q = final(self).contributors@[contributor];
                    &&& q.milestones_completed == if p.milestones_completed == u32::MAX {
                        u32::MAX as int
                    } else {
                        p.milestones_completed + 1
                    }
                    &&& q.total_earned == crate::arith::clamp_i128(p.total_earned + payout_amount)
                    &&& q.milestones_rejected == p.milestones_rejected
                    &&& q.reputation_score == spec_score(
                        q.milestones_completed as int,
                        q.milestones_rejected as int,
                        q.total_earned as int,
                    )
                    &&& q.contributor == p.contributor
                    &&& q.grants_count == p.grants_count
                    &&& q.last_action_at == p.last_action_at
                }
                &&& final(self).grants == old(self).grants
                &&& final(self).escrow == old(self).escrow
                &&& final(self).metrics == old(self).metrics
                &&& final(self).milestones == old(self).milestones
                &&& final(self).reviewer_reputation == old(self).reviewer_reputation
                &&& final(self).reviewer_stakes == old(self).reviewer_stakes
                &&& final(self).same_release_state(old(self))
            },
    {
        let key = pair_key(grant_id, milestone_idx as u64);
        if self.reputation_applied.contains_key(&key) {
            return;
        }
        self.reputation_applied.insert(key, true);
        proof {
            assert forall|g: u64, i: u32| #[trigger] self.reputation_credited(g, i) == (old(self).reputation_credited(g, i) || (g
                == grant_id && i == milestone_idx)) by {
                lemma_pair_key_injective(g, i as u64, grant_id, milestone_idx as u64);
            }
        }
        let mut profile = match self.contributors.remove(&contributor) {
            Some(p) => p,
            None => return,
        };
        let _ = record_completion(&mut profile, payout_amount);
        self.contributors.insert(contributor, profile);
        assert(self.contributors@.dom() =~= old(self).contributors@.dom());
    }
}

proof fn lemma_false_count_monotone(votes: Seq<(AccountId, bool)>, a: AccountId, i: int, j: int)
    requires
        0 <= i <= j,
    ensures
        spec_false_count(votes, a, i) <= spec_false_count(votes, a, j),
    decreases j - i,
{
    if i < j {
        lemma_false_count_monotone(votes, a, i, j - 1);
    }
}
} // verus!
