use vstd::prelude::*;

use crate::constants::MAX_BATCH_SIZE;
use crate::contract::StellarGrantsContract;
use crate::errors::ContractError;
use crate::grants::GrantView;
use crate::milestones::Milestone;
use crate::types::{AccountId, ComplianceLevel, GrantStatus, MilestoneState};

verus! {

/// One milestone of a batch submission.
#[derive(Clone, Debug)]
pub struct MilestoneSubmission {
    pub idx: u32,
    pub description: String,
    pub proof: String,
}

/// `m` is the freshly submitted milestone `idx` with this description and proof, worth
/// `amount`, submitted at `now` to as many assessors as the grant lists.
pub open spec fn spec_fresh_submission(
    m: Milestone,
    idx: u32,
    description: Seq<char>,
    proof: Seq<char>,
    amount: i128,
    reviewer_count: nat,
    now: u64,
) -> bool {
    &&& m.idx == idx
    &&& m.description@ == description
    &&& m.amount == amount
    &&& m.state == MilestoneState::Submitted
    &&& m.votes@.len() == 0
    &&& m.approvals == 0
    &&& m.rejections == 0
    &&& m.reasons@.len() == 0
    &&& m.status_updated_at == 0
    &&& m.proof_url matches Some(p) && p@ == proof
    &&& m.submission_timestamp == now
    &&& m.deadline is None
    &&& m.reviewer_count_snapshot == if reviewer_count > u32::MAX { u32::MAX as nat } else { reviewer_count }
}

/// Whether a milestone in this state may not be submitted again.
pub open spec fn spec_locked_in(m: Option<Milestone>) -> bool {
    m matches Some(x) && (x.state == MilestoneState::Submitted || x.state == MilestoneState::Approved)
}

impl StellarGrantsContract {
    /// Why submitting milestone `idx` of `g` is refused, if it is.
    pub open spec fn spec_submission_check(&self, grant_id: u64, g: GrantView, idx: u32) -> Result<(), ContractError> {
        if idx >= g.total_milestones {
            Err(ContractError::MilestoneIndexOutOfBounds)
        } else if spec_locked_in(self.milestones.milestone(grant_id, idx)) {
            Err(ContractError::MilestoneAlreadySubmitted)
        } else {
            Ok(())
        }
    }

    /// Why submitting milestone `idx` of `grant_id` as `recipient` is refused, if it is.
    pub open spec fn spec_submit_check(&self, grant_id: u64, recipient: AccountId, idx: u32) -> Result<(), ContractError> {
        let g = self.grants.views()[grant_id];
        if !self.grants.views().contains_key(grant_id) {
            Err(ContractError::GrantNotFound)
        } else if g.status != GrantStatus::Active {
            Err(ContractError::InvalidState)
        } else if g.owner != recipient {
            Err(ContractError::Unauthorized)
        } else {
            self.spec_submission_check(grant_id, g, idx)
        }
    }

    /// Store milestone `idx` of `grant_id` as freshly submitted.
    fn apply_milestone_submission(
        &mut self,
        grant_id: u64,
        milestone_amount: i128,
        reviewer_count: usize,
        idx: u32,
        description: String,
        proof_url: String,
        now: u64,
    )
        ensures
            forall|g: u64, i: u32|
                !(g == grant_id && i == idx) ==> #[trigger] final(self).milestones.milestone(g, i) == old(
                    self,
                ).milestones.milestone(g, i),
            final(self).milestones.milestone(grant_id, idx) matches Some(m) && spec_fresh_submission(
                m,
                idx,
                description@,
                proof_url@,
                milestone_amount,
                reviewer_count as nat,
                now,
            ),
            final(self).grants == old(self).grants,
            final(self).escrow == old(self).escrow,
            final(self).metrics == old(self).metrics,
            final(self).same_accounts(old(self)),
            final(self).same_release_state(old(self)),
    {
        let snapshot: u32 = if reviewer_count > u32::MAX as usize { u32::MAX } else { reviewer_count as u32 };
        let ghost d = description@;
        let ghost p = proof_url@;
        let m = Milestone {
            idx,
            description,
            amount: milestone_amount,
            state: MilestoneState::Submitted,
            votes: Vec::new(),
            approvals: 0,
            rejections: 0,
            reasons: Vec::new(),
            status_updated_at: 0,
            proof_url: Some(proof_url),
            submission_timestamp: now,
            deadline: None,
            reviewer_count_snapshot: snapshot,
        };
        assert(spec_fresh_submission(m, idx, d, p, milestone_amount, reviewer_count as nat, now));
        self.milestones.set(grant_id, idx, m);
    }

    /// The grant's owner submits a completed milestone for assessment.
    pub fn milestone_submit(
        &mut self,
        grant_id: u64,
        milestone_idx: u32,
        recipient: AccountId,
        description: String,
        proof_url: String,
        now: u64,
    ) -> (r: Result<(), ContractError>)
        ensures
            r == old(self).spec_submit_check(grant_id, recipient, milestone_idx),
            r is Err ==> *final(self) == *old(self),
            r is Ok ==> {
                let g = old(self).grants.views()[grant_id];
                &&& forall|gg: u64, i: u32|
                    !(gg == grant_id && i == milestone_idx) ==> #[trigger] final(self).milestones.milestone(gg, i)
                        == old(self).milestones.milestone(gg, i)
                &&& final(self).milestones.milestone(grant_id, milestone_idx) matches Some(m) && spec_fresh_submission(
                    m,
                    milestone_idx,
                    description@,
                    proof_url@,
                    g.milestone_amount,
                    g.reviewers.len(),
                    now,
                )
                &&& final(self).grants == old(self).grants
                &&& final(self).escrow == old(self).escrow
                &&& final(self).metrics == old(self).metrics
                &&& final(self).same_accounts(old(self))
                &&& final(self).same_release_state(old(self))
            },
    {
        let (amount, reviewer_count, total) = match self.grants.get(grant_id) {
            Some(g) => {
                if g.status != GrantStatus::Active {
                    return Err(ContractError::InvalidState);
                }
                if g.owner != recipient {
                    return Err(ContractError::Unauthorized);
                }
                (g.milestone_amount, g.reviewers.len(), g.total_milestones)
            },
            None => return Err(ContractError::GrantNotFound),
        };
        if milestone_idx >= total {
            return Err(ContractError::MilestoneIndexOutOfBounds);
        }
        match self.milestones.state_of(grant_id, milestone_idx) {
            Some(s) => {
                if s == MilestoneState::Submitted || s == MilestoneState::Approved {
                    return Err(ContractError::MilestoneAlreadySubmitted);
                }
            },
            None => {},
        }
        self.apply_milestone_submission(grant_id, amount, reviewer_count, milestone_idx, description, proof_url, now);
        Ok(())
    }

    /// The owner of an active grant requires a compliance level for its release.
    pub fn set_grant_compliance_level(&mut self, owner: AccountId, grant_id: u64, level: ComplianceLevel) -> (r: Result<
        (),
        ContractError,
    >)
        ensures
            !old(self).grants.views().contains_key(grant_id) ==> r == Err::<(), ContractError>(ContractError::GrantNotFound),
            old(self).grants.views().contains_key(grant_id) && old(self).grants.views()[grant_id].owner != owner ==> r == Err::<
                (),
                ContractError,
            >(ContractError::Unauthorized),
            r is Err ==> *final(self) == *old(self),
            r is Ok <==> old(self).grants.views().contains_key(grant_id) && old(self).grants.views()[grant_id].owner == owner,
            r is Ok ==> final(self).grants.views() == old(self).grants.views().insert(
                grant_id,
                GrantView { require_compliance: Some(level), ..old(self).grants.views()[grant_id] },
            ) && final(self).grants.counter() == old(self).grants.counter() && final(self).escrow == old(self).escrow
                && final(self).milestones == old(self).milestones && final(self).metrics == old(self).metrics
                && final(self).same_accounts(old(self)) && final(self).same_release_state(old(self)),
    {
        match self.grants.get(grant_id) {
            Some(g) => {
                if g.owner != owner {
                    return Err(ContractError::Unauthorized);
                }
            },
            None => return Err(ContractError::GrantNotFound),
        }
        let mut grant = self.grants.take(grant_id).unwrap();
        grant.require_compliance = Some(level);
        self.grants.set(grant_id, grant);
        assert(self.grants.views() =~= old(self).grants.views().insert(
            grant_id,
            GrantView { require_compliance: Some(level), ..old(self).grants.views()[grant_id] },
        ));
        Ok(())
    }

    /// Why item `k` of a batch submission for grant `g` is refused, if it is: an index out
    /// of range, a milestone already under arbitration or approved, or an index submitted earlier
    /// in the same batch.
    pub open spec fn spec_batch_item_check(&self, grant_id: u64, g: GrantView, subs: Seq<MilestoneSubmission>, k: int) -> Result<
        (),
        ContractError,
    > {
        if subs[k].idx >= g.total_milestones {
            Err(ContractError::MilestoneIndexOutOfBounds)
        } else if spec_locked_in(self.milestones.milestone(grant_id, subs[k].idx)) || exists|j: int|
            0 <= j < k && #[trigger] subs[j].idx == subs[k].idx {
            Err(ContractError::MilestoneAlreadySubmitted)
        } else {
            Ok(())
        }
    }

    /// The first refusal among items `k..` of a batch submission, if any.
    pub open spec fn spec_batch_items_from(&self, grant_id: u64, g: GrantView, subs: Seq<MilestoneSubmission>, k: int) -> Result<
        (),
        ContractError,
    >
        decreases subs.len() - k,
    {
        if k < 0 || k >= subs.len() {
            Ok(())
        } else if self.spec_batch_item_check(grant_id, g, subs, k) is Err {
            self.spec_batch_item_check(grant_id, g, subs, k)
        } else {
            self.spec_batch_items_from(grant_id, g, subs, k + 1)
        }
    }

    /// Why a batch submission is refused, if it is.
    pub open spec fn spec_submit_batch_check(&self, grant_id: u64, recipient: AccountId, subs: Seq<MilestoneSubmission>) -> Result<
        (),
        ContractError,
    > {
        let g = self.grants.views()[grant_id];
        if subs.len() == 0 {
            Err(ContractError::BatchEmpty)
        } else if subs.len() > MAX_BATCH_SIZE {
            Err(ContractError::BatchTooLarge)
        } else if !self.grants.views().contains_key(grant_id) {
            Err(ContractError::GrantNotFound)
        } else if g.status != GrantStatus::Active {
            Err(ContractError::InvalidState)
        } else if g.owner != recipient {
            Err(ContractError::Unauthorized)
        } else {
            self.spec_batch_items_from(grant_id, g, subs, 0)
        }
    }

    /// The grant's owner submits several milestones at once: all of them, or none.
    pub fn milestone_submit_batch(
        &mut self,
        grant_id: u64,
        recipient: AccountId,
        submissions: &Vec<MilestoneSubmission>,
        now: u64,
    ) -> (r: Result<(), ContractError>)
        ensures
            r == old(self).spec_submit_batch_check(grant_id, recipient, submissions@),
            r is Err ==> *final(self) == *old(self),
            r is Ok ==> {
                let g = old(self).grants.views()[grant_id];
                let subs = submissions@;
                &&& forall|gg: u64, i: u32|
                    !(gg == grant_id && exists|k: int| 0 <= k < subs.len() && #[trigger] subs[k].idx == i)
                        ==> #[trigger] final(self).milestones.milestone(gg, i) == old(self).milestones.milestone(gg, i)
                &&& forall|k: int|
                    0 <= k < subs.len() ==> (#[trigger] final(self).milestones.milestone(grant_id, subs[k].idx) matches Some(
                        m,
                    ) && spec_fresh_submission(
                        m,
                        subs[k].idx,
                        subs[k].description@,
                        subs[k].proof@,
                        g.milestone_amount,
                        g.reviewers.len(),
                        now,
                    ))
                &&& final(self).grants == old(self).grants
                &&& final(self).escrow == old(self).escrow
                &&& final(self).metrics == old(self).metrics
                &&& final(self).same_accounts(old(self))
                &&& final(self).same_release_state(old(self))
            },
    {
        let n = submissions.len();
        if n == 0 {
            return Err(ContractError::BatchEmpty);
        }
        if n > MAX_BATCH_SIZE as usize {
            return Err(ContractError::BatchTooLarge);
        }
        let (amount, reviewer_count, total) = match self.grants.get(grant_id) {
            Some(g) => {
                if g.status != GrantStatus::Active {
                    return Err(ContractError::InvalidState);
                }
                if g.owner != recipient {
                    return Err(ContractError::Unauthorized);
                }
                (g.milestone_amount, g.reviewers.len(), g.total_milestones)
            },
            None => return Err(ContractError::GrantNotFound),
        };
        let ghost g = old(self).grants.views()[grant_id];
        let ghost subs = submissions@;
        let mut k: usize = 0;
        while k < n
            invariant
                n == submissions.len(),
                subs == submissions@,
                k <= n,
                *self == *old(self),
                0 < n <= MAX_BATCH_SIZE,
                old(self).grants.views().contains_key(grant_id),
                g == old(self).grants.views()[grant_id],
                g.status == GrantStatus::Active,
                g.owner == recipient,
                total == g.total_milestones,
                forall|j: int| 0 <= j < k ==> #[trigger] self.spec_batch_item_check(grant_id, g, subs, j) is Ok,
                old(self).spec_batch_items_from(grant_id, g, subs, 0) == old(self).spec_batch_items_from(
                    grant_id,
                    g,
                    subs,
                    k as int,
                ),
            decreases n - k,
        {
            let idx = submissions[k].idx;
            if idx >= total {
                return Err(ContractError::MilestoneIndexOutOfBounds);
            }
            let locked = match self.milestones.state_of(grant_id, idx) {
                Some(s) => s == MilestoneState::Submitted || s == MilestoneState::Approved,
                None => false,
            };
            let mut dup = false;
            let mut j: usize = 0;
            while j < k
                invariant
                    j <= k < n,
                    n == submissions.len(),
                    subs == submissions@,
                    idx == subs[k as int].idx,
                    dup == exists|jj: int| 0 <= jj < j && #[trigger] subs[jj].idx == idx,
                decreases k - j,
            {
                if submissions[j].idx == idx {
                    dup = true;
                }
                j += 1;
            }
            if locked || dup {
                return Err(ContractError::MilestoneAlreadySubmitted);
            }
            assert(self.spec_batch_item_check(grant_id, g, subs, k as int) is Ok);
            k += 1;
        }
        let mut i: usize = 0;
        while i < n
            invariant
                n == submissions.len(),
                subs == submissions@,
                i <= n,
                old(self).grants.views().contains_key(grant_id),
                g == old(self).grants.views()[grant_id],
                amount == g.milestone_amount,
                reviewer_count == g.reviewers.len(),
                forall|j: int| 0 <= j < n ==> #[trigger] old(self).spec_batch_item_check(grant_id, g, subs, j) is Ok,
                forall|gg: u64, ii: u32|
                    !(gg == grant_id && exists|kk: int| 0 <= kk < i && #[trigger] subs[kk].idx == ii) ==> #[trigger] self.milestones.milestone(
                        gg,
                        ii,
                    ) == old(self).milestones.milestone(gg, ii),
                forall|kk: int|
                    0 <= kk < i ==> (#[trigger] self.milestones.milestone(grant_id, subs[kk].idx) matches Some(m)
                        && spec_fresh_submission(
                        m,
                        subs[kk].idx,
                        subs[kk].description@,
                        subs[kk].proof@,
                        amount,
                        reviewer_count as nat,
                        now,
                    )),
                self.grants == old(self).grants,
                self.escrow == old(self).escrow,
                self.metrics == old(self).metrics,
                self.same_accounts(old(self)),
                self.same_release_state(old(self)),
            decreases n - i,
        {
            let sub = &submissions[i];
            let ghost before = *self;
            assert forall|kk: int| 0 <= kk < i implies subs[kk].idx != subs[i as int].idx by {
                assert(old(self).spec_batch_item_check(grant_id, g, subs, i as int) is Ok);
            }
            self.apply_milestone_submission(
                grant_id,
                amount,
                reviewer_count,
                sub.idx,
                sub.description.clone(),
                sub.proof.clone(),
                now,
            );
            proof {
                assert forall|kk: int| 0 <= kk < i + 1 implies (#[trigger] self.milestones.milestone(
                    grant_id,
                    subs[kk].idx,
                ) matches Some(m) && spec_fresh_submission(
                    m,
                    subs[kk].idx,
                    subs[kk].description@,
                    subs[kk].proof@,
                    amount,
                    reviewer_count as nat,
                    now,
                )) by {
                    if kk < i {
                        assert(before.milestones.milestone(grant_id, subs[kk].idx) == self.milestones.milestone(
                            grant_id,
                            subs[kk].idx,
                        ));
                    }
                }
                assert forall|gg: u64, ii: u32|
                    !(gg == grant_id && exists|kk: int| 0 <= kk < i + 1 && #[trigger] subs[kk].idx == ii) implies #[trigger] self.milestones.milestone(
                    gg,
                    ii,
                ) == old(self).milestones.milestone(gg, ii) by {
                    if gg == grant_id {
                        assert(!exists|kk: int| 0 <= kk < i && #[trigger] subs[kk].idx == ii);
                        assert(subs[i as int].idx != ii);
                    }
                }
            }
            i += 1;
        }
        Ok(())
    }
}

} // verus!
