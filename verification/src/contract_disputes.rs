use vstd::prelude::*;
use crate::contract::StellarGrantsContract;
use crate::dispute::{
    arbiter_vote, assign_arbiter, cancel_dispute, resolve_dispute, spec_resolution, spec_resolve_no_overflow, DisputeBook,
    DisputeView,
};
use crate::errors::ContractError;
use crate::keys::Transfer;
use crate::metrics::{spec_increment, MetricField};
use crate::milestones::MilestoneBook;
use crate::types::{AccountId, DisputeStatus};

verus! {

/// The amount of milestone `idx` of grant `grant_id`, if it exists.
pub open spec fn spec_milestone_amount(ms: &MilestoneBook, grant_id: u64, idx: u32) -> Option<i128> {
    match ms.milestone(grant_id, idx) {
        Some(m) => Some(m.amount),
        None => None,
    }
}

/// Every dispute but the one over (`grant_id`, `idx`) is as it was.
pub open spec fn others_unchanged(before: &DisputeBook, after: &DisputeBook, grant_id: u64, idx: u32) -> bool {
    forall|g: u64, i: u32| !(g == grant_id && i == idx) ==> #[trigger] after.dispute(g, i) == before.dispute(g, i)
}

/// No dispute changed.
pub open spec fn all_unchanged(before: &DisputeBook, after: &DisputeBook) -> bool {
    forall|g: u64, i: u32| #[trigger] after.dispute(g, i) == before.dispute(g, i)
}

impl StellarGrantsContract {
    /// The owner or an assessor of a grant raises a dispute over one of its milestones, and
    /// the protocol counts it.
    pub fn dispute_raise(
        &mut self,
        disputes: &mut DisputeBook,
        grant_id: u64,
        milestone_idx: u32,
        caller: AccountId,
        reason: String,
        now: u64,
    ) -> (r: Result<(), ContractError>)
        requires
            old(disputes).wf(),
        ensures
            final(disputes).wf(),
            ({
                let found = old(self).grants.grants().contains_key(grant_id);
                let g = old(self).grants.grants()[grant_id];
                let allowed = g.owner == caller || g.reviewers@.contains(caller);
                let open = old(disputes).dispute(g.id, milestone_idx) is Some;
                &&& !found ==> r == Err::<(), ContractError>(ContractError::GrantNotFound)
                &&& found && !allowed ==> r == Err::<(), ContractError>(ContractError::Unauthorized)
                &&& found && allowed && open ==> r == Err::<(), ContractError>(ContractError::InvalidState)
                &&& r is Ok <==> found && allowed && !open
                &&& r is Err ==> *final(self) == *old(self) && all_unchanged(old(disputes), final(disputes))
                &&& r is Ok ==> {
                    &&& final(disputes).dispute(g.id, milestone_idx) == Some(
                        DisputeView {
                            grant_id: g.id,
                            milestone_idx,
                            raised_by: caller,
                            reason: reason@,
                            status: DisputeStatus::Open,
                            arbiters: Seq::empty(),
                            votes_contributor: 0,
                            votes_funder: 0,
                            raised_at: now,
                            resolved_at: None,
                        },
                    )
                    &&& others_unchanged(old(disputes), final(disputes), g.id, milestone_idx)
                    &&& final(self).metrics.stored() == Some(
                        spec_increment(old(self).metrics.current(now), MetricField::DisputesRaised, 1, now),
                    )
                    &&& forall|t: AccountId| #[trigger] final(self).metrics.token_metric(t) == old(self).metrics.token_metric(t)
                    &&& *final(self) == (StellarGrantsContract { metrics: final(self).metrics, ..*old(self) })
                }
            }),
    {
        let grant = match self.grants.get(grant_id) {
            Some(g) => g,
            None => return Err(ContractError::GrantNotFound),
        };
        match disputes.raise_dispute(grant, milestone_idx, caller, reason, now) {
            Ok(_) => {},
            Err(e) => return Err(e),
        }
        self.metrics.increment(MetricField::DisputesRaised, 1, now);
        Ok(())
    }

    /// The global admin assigns an arbiter to an open dispute.
    pub fn dispute_assign_arbiter(
        &self,
        disputes: &mut DisputeBook,
        grant_id: u64,
        milestone_idx: u32,
        admin: AccountId,
        arbiter: AccountId,
    ) -> (r: Result<(), ContractError>)
        requires
            old(disputes).wf(),
        ensures
            final(disputes).wf(),
            ({
                let admin_ok = self.global_admin == Some(admin);
                let q = old(disputes).dispute(grant_id, milestone_idx);
                let d = q->0;
                &&& !admin_ok ==> r == Err::<(), ContractError>(ContractError::Unauthorized)
                &&& admin_ok && q is None ==> r == Err::<(), ContractError>(ContractError::InvalidState)
                &&& admin_ok && q is Some && d.status != DisputeStatus::Open ==> r == Err::<(), ContractError>(
                    ContractError::InvalidState)
                &&& admin_ok && q is Some && d.status == DisputeStatus::Open && d.arbiters.contains(arbiter) ==> r == Err::<
                    (),
                    ContractError,
                >(ContractError::AlreadyVoted)
                &&& r is Ok <==> admin_ok && q is Some && d.status == DisputeStatus::Open && !d.arbiters.contains(arbiter)
                &&& r is Err ==> all_unchanged(old(disputes), final(disputes))
                &&& r is Ok ==> final(disputes).dispute(grant_id, milestone_idx) == Some(
                    DisputeView { status: DisputeStatus::UnderReview, arbiters: d.arbiters.push(arbiter), ..d },
                ) && others_unchanged(old(disputes), final(disputes), grant_id, milestone_idx)
            }),
    {
        if self.global_admin != Some(admin) {
            return Err(ContractError::Unauthorized);
        }
        let mut d = match disputes.get(grant_id, milestone_idx) {
            Some(d) => d.duplicate(),
            None => return Err(ContractError::InvalidState),
        };
        match assign_arbiter(&mut d, admin, arbiter, self.global_admin) {
            Ok(()) => {},
            Err(e) => return Err(e),
        }
        disputes.set(d);
        Ok(())
    }

    /// An arbiter of a dispute under arbitration votes for the contributor or the funder.
    pub fn dispute_arbiter_vote(
        disputes: &mut DisputeBook,
        grant_id: u64,
        milestone_idx: u32,
        arbiter: AccountId,
        favor_contributor: bool,
    ) -> (r: Result<(), ContractError>)
        requires
            old(disputes).wf(),
        ensures
            final(disputes).wf(),
            ({
                let q = old(disputes).dispute(grant_id, milestone_idx);
                let d = q->0;
                &&& q is None ==> r == Err::<(), ContractError>(ContractError::InvalidState)
                &&& q is Some && d.status != DisputeStatus::UnderReview ==> r == Err::<(), ContractError>(
                    ContractError::InvalidState)
                &&& q is Some && d.status == DisputeStatus::UnderReview && !d.arbiters.contains(arbiter) ==> r == Err::<
                    (),
                    ContractError,
                >(ContractError::Unauthorized)
                &&& r is Ok <==> q is Some && d.status == DisputeStatus::UnderReview && d.arbiters.contains(arbiter)
                &&& r is Err ==> all_unchanged(old(disputes), final(disputes))
                &&& r is Ok ==> final(disputes).dispute(grant_id, milestone_idx) == Some(
                    if favor_contributor {
                        DisputeView { votes_contributor: crate::arith::clamp_u32(d.votes_contributor + 1) as u32, ..d }
                    } else {
                        DisputeView { votes_funder: crate::arith::clamp_u32(d.votes_funder + 1) as u32, ..d }
                    },
                ) && others_unchanged(old(disputes), final(disputes), grant_id, milestone_idx)
            }),
    {
        let mut d = match disputes.get(grant_id, milestone_idx) {
            Some(d) => d.duplicate(),
            None => return Err(ContractError::InvalidState),
        };
        match arbiter_vote(&mut d, arbiter, favor_contributor) {
            Ok(()) => {},
            Err(e) => return Err(e),
        }
        disputes.set(d);
        Ok(())
    }

    /// The party that raised an open or arbitrated dispute, or the global admin, cancels it.
    pub fn dispute_cancel(
        &self,
        disputes: &mut DisputeBook,
        grant_id: u64,
        milestone_idx: u32,
        caller: AccountId,
        now: u64,
    ) -> (r: Result<(), ContractError>)
        requires
            old(disputes).wf(),
        ensures
            final(disputes).wf(),
            ({
                let q = old(disputes).dispute(grant_id, milestone_idx);
                let d = q->0;
                let live = d.status == DisputeStatus::Open || d.status == DisputeStatus::UnderReview;
                &&& q is None ==> r == Err::<(), ContractError>(ContractError::InvalidState)
                &&& q is Some && !live ==> r == Err::<(), ContractError>(ContractError::InvalidState)
                &&& q is Some && live && d.raised_by != caller && self.global_admin != Some(caller) ==> r == Err::<
                    (),
                    ContractError,
                >(ContractError::Unauthorized)
                &&& r is Ok <==> q is Some && live && (d.raised_by == caller || self.global_admin == Some(caller))
                &&& r is Err ==> all_unchanged(old(disputes), final(disputes))
                &&& r is Ok ==> final(disputes).dispute(grant_id, milestone_idx) == Some(
                    DisputeView { status: DisputeStatus::Cancelled, resolved_at: Some(now), ..d },
                ) && others_unchanged(old(disputes), final(disputes), grant_id, milestone_idx)
            }),
    {
        let mut d = match disputes.get(grant_id, milestone_idx) {
            Some(d) => d.duplicate(),
            None => return Err(ContractError::InvalidState),
        };
        match cancel_dispute(&mut d, caller, self.global_admin, now) {
            Ok(()) => {},
            Err(e) => return Err(e),
        }
        disputes.set(d);
        Ok(())
    }

    /// The global admin resolves a dispute under arbitration: the grant and the dispute are
    /// updated as the resolution says, and the protocol counts it.
    pub fn dispute_resolve(
        &mut self,
        disputes: &mut DisputeBook,
        grant_id: u64,
        milestone_idx: u32,
        caller: AccountId,
        now: u64,
        transfers: &mut Vec<Transfer>,
    ) -> (r: Result<DisputeStatus, ContractError>)
        requires
            old(disputes).wf(),
            old(self).grants.grants().contains_key(grant_id) && old(disputes).dispute(grant_id, milestone_idx) is Some
                ==> spec_resolve_no_overflow(
                old(self).grants.grants()[grant_id],
                old(disputes).dispute(grant_id, milestone_idx)->0,
                spec_milestone_amount(&old(self).milestones, old(self).grants.grants()[grant_id].id, milestone_idx),
            ),
        ensures
            final(disputes).wf(),
            ({
                let admin_ok = old(self).global_admin == Some(caller);
                let found = old(self).grants.grants().contains_key(grant_id);
                let g = old(self).grants.grants()[grant_id];
                let q = old(disputes).dispute(grant_id, milestone_idx);
                let amount = spec_milestone_amount(&old(self).milestones, g.id, milestone_idx);
                &&& !admin_ok ==> r == Err::<DisputeStatus, ContractError>(ContractError::Unauthorized)
                &&& admin_ok && !found ==> r == Err::<DisputeStatus, ContractError>(ContractError::GrantNotFound)
                &&& admin_ok && found && q is None ==> r == Err::<DisputeStatus, ContractError>(ContractError::InvalidState)
                &&& !(admin_ok && found && q is Some) ==> *final(self) == *old(self) && all_unchanged(
                    old(disputes),
                    final(disputes),
                ) && final(transfers)@ == old(transfers)@
                &&& r is Err ==> final(self).grants.grants() == old(self).grants.grants() && final(self).grants.counter()
                    == old(self).grants.counter() && *final(self) == (StellarGrantsContract {
                    grants: final(self).grants,
                    ..*old(self)
                }) && all_unchanged(old(disputes), final(disputes)) && final(transfers)@ == old(transfers)@
                &&& admin_ok && found && q is Some ==> {
                    let g2 = final(self).grants.grants()[grant_id];
                    let d2 = final(disputes).dispute(grant_id, milestone_idx)->0;
                    &&& spec_resolution(g, q->0, amount, now, old(transfers)@, r, g2, d2, final(transfers)@)
                    &&& r is Ok ==> {
                        &&& final(self).grants.grants() == old(self).grants.grants().insert(grant_id, g2)
                        &&& final(disputes).dispute(grant_id, milestone_idx) is Some
                        &&& others_unchanged(old(disputes), final(disputes), grant_id, milestone_idx)
                        &&& final(self).metrics.stored() == Some(
                            spec_increment(old(self).metrics.current(now), MetricField::DisputesResolved, 1, now),
                        )
                        &&& forall|t: AccountId| #[trigger] final(self).metrics.token_metric(t) == old(
                            self,
                        ).metrics.token_metric(t)
                        &&& *final(self) == (StellarGrantsContract {
                            grants: final(self).grants,
                            metrics: final(self).metrics,
                            ..*old(self)
                        })
                    }
                }
            }),
    {
        if self.global_admin != Some(caller) {
            return Err(ContractError::Unauthorized);
        }
        if !self.grants.contains(grant_id) {
            return Err(ContractError::GrantNotFound);
        }
        let mut d = match disputes.get(grant_id, milestone_idx) {
            Some(d) => d.duplicate(),
            None => return Err(ContractError::InvalidState),
        };
        let ghost grants0 = self.grants.grants();
        let ghost t0 = transfers@;
        let mut grant = self.grants.take(grant_id).unwrap();
        let amount = self.milestones.amount_of(grant.id, milestone_idx);
        let outcome = resolve_dispute(&mut grant, &mut d, amount, now, transfers);
        let ghost g2 = grant;
        self.grants.set(grant_id, grant);
        match outcome {
            Ok(status) => {
                disputes.set(d);
                self.metrics.increment(MetricField::DisputesResolved, 1, now);
                Ok(status)
            },
            Err(e) => {
                proof {
                    assert(self.grants.grants() =~= grants0);
                }
                Err(e)
            },
        }
    }
}

} // verus!
