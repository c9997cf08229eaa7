use vstd::prelude::*;
use std::collections::HashMap;

use crate::arith::clamp_u32;
use crate::errors::ContractError;
use crate::grants::GrantBook;
use crate::keys::{lemma_pair_key_injective, pair_key, spec_pair_key};
use crate::milestones::{Milestone, MilestoneBook};
use crate::types::{AccountId, ExtensionStatus};

verus! {

/// The payload of the event published when an extension is granted.
#[derive(Clone, Copy, Debug, PartialEq, Eq, Structural)]
pub struct ExtensionApproved {
    pub grant_id: u64,
    pub milestone_idx: u32,
    pub new_deadline: u64,
}

/// The payload of the event published when an extension is refused.
#[derive(Clone, Copy, Debug, PartialEq, Eq, Structural)]
pub struct ExtensionDenied {
    pub grant_id: u64,
    pub milestone_idx: u32,
}

/// The payload of the event published when a request is withdrawn.
#[derive(Clone, Copy, Debug, PartialEq, Eq, Structural)]
pub struct ExtensionWithdrawn {
    pub grant_id: u64,
    pub milestone_idx: u32,
}


broadcast use vstd::std_specs::hash::group_hash_axioms;

/// A request to move a milestone's deadline.
#[derive(Debug)]
pub struct ExtensionRequest {
    pub grant_id: u64,
    pub milestone_idx: u32,
    pub requested_by: AccountId,
    pub original_deadline: u64,
    pub new_deadline: u64,
    pub reason: String,
    pub status: ExtensionStatus,
    pub votes_approve: u32,
    pub votes_deny: u32,
    pub reviewer_votes: Vec<(AccountId, bool)>,
    pub requested_at: u64,
    pub resolved_at: Option<u64>,
}

/// An extension request as a mathematical value.
pub struct ExtensionRequestView {
    pub grant_id: u64,
    pub milestone_idx: u32,
    pub requested_by: AccountId,
    pub original_deadline: u64,
    pub new_deadline: u64,
    pub reason: Seq<char>,
    pub status: ExtensionStatus,
    pub votes_approve: u32,
    pub votes_deny: u32,
    pub reviewer_votes: Seq<(AccountId, bool)>,
    pub requested_at: u64,
    pub resolved_at: Option<u64>,
}

impl View for ExtensionRequest {
    type V = ExtensionRequestView;

    open spec fn view(&self) -> ExtensionRequestView {
        ExtensionRequestView {
            grant_id: self.grant_id,
            milestone_idx: self.milestone_idx,
            requested_by: self.requested_by,
            original_deadline: self.original_deadline,
            new_deadline: self.new_deadline,
            reason: self.reason@,
            status: self.status,
            votes_approve: self.votes_approve,
            votes_deny: self.votes_deny,
            reviewer_votes: self.reviewer_votes@,
            requested_at: self.requested_at,
            resolved_at: self.resolved_at,
        }
    }
}

impl ExtensionRequest {
    /// A field-by-field copy.
    pub fn duplicate(&self) -> (r: ExtensionRequest)
        ensures
            r@ == self@,
    {
        let votes = copy_votes(&self.reviewer_votes);
        ExtensionRequest {
            grant_id: self.grant_id,
            milestone_idx: self.milestone_idx,
            requested_by: self.requested_by,
            original_deadline: self.original_deadline,
            new_deadline: self.new_deadline,
            reason: self.reason.clone(),
            status: self.status,
            votes_approve: self.votes_approve,
            votes_deny: self.votes_deny,
            reviewer_votes: votes,
            requested_at: self.requested_at,
            resolved_at: self.resolved_at,
        }
    }
}

/// A copy of a list of votes.
pub fn copy_votes(v: &Vec<(AccountId, bool)>) -> (r: Vec<(AccountId, bool)>)
    ensures
        r@ == v@,
{
    let mut out: Vec<(AccountId, bool)> = Vec::new();
    let mut i: usize = 0;
    while i < v.len()
        invariant
            i <= v@.len(),
            out@ == v@.take(i as int),
        decreases v@.len() - i,
    {
        out.push(v[i]);
        proof {
            assert(v@.take(i + 1) == v@.take(i as int).push(v@[i as int]));
        }
        i += 1;
    }
    proof {
        assert(v@.take(v@.len() as int) == v@);
    }
    out
}

/// The assessors who voted, in voting order.
pub open spec fn extension_voters(votes: Seq<(AccountId, bool)>) -> Seq<AccountId> {
    votes.map_values(|v: (AccountId, bool)| v.0)
}

/// The open extension request of each milestone and the resolved requests of each grant.
pub struct ExtensionBook {
    requests: HashMap<u128, ExtensionRequest>,
    history: HashMap<u64, Vec<ExtensionRequest>>,
}

impl ExtensionBook {
    /// The current request for milestone `idx` of grant `grant_id`.
    pub closed spec fn request(&self, grant_id: u64, idx: u32) -> Option<ExtensionRequestView> {
        let k = spec_pair_key(grant_id, idx as u64);
        if self.requests@.contains_key(k) { Some(self.requests@[k]@) } else { None }
    }

    /// The resolved requests of a grant, in resolution order.
    pub closed spec fn history(&self, grant_id: u64) -> Seq<ExtensionRequestView> {
        if self.history@.contains_key(grant_id) {
            self.history@[grant_id]@.map_values(|r: ExtensionRequest| r@)
        } else {
            Seq::empty()
        }
    }

    /// Each request is stored under its own grant and milestone.
    pub open spec fn wf(&self) -> bool {
        forall|g: u64, i: u32| #[trigger] self.request(g, i) is Some ==> self.request(g, i)->0.grant_id == g && self.request(
            g,
            i,
        )->0.milestone_idx == i
    }

    pub fn new() -> (b: ExtensionBook)
        ensures
            b.wf(),
            forall|g: u64, i: u32| #[trigger] b.request(g, i) is None,
            forall|g: u64| #[trigger] b.history(g) == Seq::<ExtensionRequestView>::empty(),
    {
        ExtensionBook { requests: HashMap::new(), history: HashMap::new() }
    }

    fn set_request(&mut self, req: ExtensionRequest)
        ensures
            forall|g: u64, i: u32| #[trigger] final(self).request(g, i) == if g == req.grant_id && i == req.milestone_idx {
                Some(req@)
            } else {
                old(self).request(g, i)
            },
            forall|g: u64| #[trigger] final(self).history(g) == old(self).history(g),
    {
        let ghost v = req@;
        let g0 = req.grant_id;
        let i0 = req.milestone_idx;
        self.requests.insert(pair_key(g0, i0 as u64), req);
        proof {
            assert forall|g: u64, i: u32| #[trigger] self.request(g, i) == if g == g0 && i == i0 {
                Some(v)
            } else {
                old(self).request(g, i)
            } by {
                lemma_pair_key_injective(g, i as u64, g0, i0 as u64);
            }
        }
    }

    fn push_history(&mut self, req: ExtensionRequest)
        ensures
            forall|g: u64, i: u32| #[trigger] final(self).request(g, i) == old(self).request(g, i),
            forall|g: u64| #[trigger] final(self).history(g) == if g == req.grant_id {
                old(self).history(g).push(req@)
            } else {
                old(self).history(g)
            },
    {
        let g0 = req.grant_id;
        let ghost v = req@;
        let mut h = match self.history.remove(&g0) {
            Some(h) => h,
            None => Vec::new(),
        };
        let ghost h0 = h@;
        h.push(req);
        proof {
            assert(h@.map_values(|r: ExtensionRequest| r@) =~= h0.map_values(|r: ExtensionRequest| r@).push(v));
        }
        self.history.insert(g0, h);
    }

    /// The grant owner asks to move a milestone's deadline to `new_deadline`, which must be
    /// later than both `now` and the current deadline; one pending request per milestone.
    pub fn request_extension(
        &mut self,
        grants: &GrantBook,
        milestones: &MilestoneBook,
        contributor: AccountId,
        grant_id: u64,
        milestone_idx: u32,
        new_deadline: u64,
        reason: String,
        now: u64,
    ) -> (r: Result<(), ContractError>)
        requires
            old(self).wf(),
        ensures
            final(self).wf(),
            forall|g: u64| #[trigger] final(self).history(g) == old(self).history(g),
            ({
                let found = grants.grants().contains_key(grant_id);
                let g = grants.grants()[grant_id];
                let m = milestones.milestone(grant_id, milestone_idx);
                let pending = old(self).request(grant_id, milestone_idx) matches Some(q) && q.status == ExtensionStatus::Pending;
                let original = match m->0.deadline { Some(d) => d, None => 0 };
                &&& !found ==> r == Err::<(), ContractError>(ContractError::GrantNotFound)
                &&& found && g.owner != contributor ==> r == Err::<(), ContractError>(ContractError::Unauthorized)
                &&& found && g.owner == contributor && m is None ==> r == Err::<(), ContractError>(ContractError::MilestoneNotFound)
                &&& found && g.owner == contributor && m is Some && pending ==> r == Err::<(), ContractError>(
                    ContractError::InvalidState)
                &&& found && g.owner == contributor && m is Some && !pending && (new_deadline <= now || new_deadline
                    <= original) ==> r == Err::<(), ContractError>(ContractError::InvalidInput)
                &&& r is Ok <==> found && g.owner == contributor && m is Some && !pending && new_deadline > now && new_deadline
                    > original
                &&& r is Err ==> forall|gg: u64, i: u32| #[trigger] final(self).request(gg, i) == old(self).request(gg, i)
                &&& r is Ok ==> forall|gg: u64, i: u32| #[trigger] final(self).request(gg, i) == if gg == grant_id && i
                    == milestone_idx {
                    Some(ExtensionRequestView {
                        grant_id,
                        milestone_idx,
                        requested_by: contributor,
                        original_deadline: original,
                        new_deadline,
                        reason: reason@,
                        status: ExtensionStatus::Pending,
                        votes_approve: 0,
                        votes_deny: 0,
                        reviewer_votes: Seq::empty(),
                        requested_at: now,
                        resolved_at: None,
                    })
                } else {
                    old(self).request(gg, i)
                }
            }),
    {
        let owner = match grants.get(grant_id) {
            Some(g) => g.owner,
            None => return Err(ContractError::GrantNotFound),
        };
        if owner != contributor {
            return Err(ContractError::Unauthorized);
        }
        let deadline = match milestones.get(grant_id, milestone_idx) {
            Some(m) => m.deadline,
            None => return Err(ContractError::MilestoneNotFound),
        };
        match self.requests.get(&pair_key(grant_id, milestone_idx as u64)) {
            Some(existing) => {
                if existing.status == ExtensionStatus::Pending {
                    return Err(ContractError::InvalidState);
                }
            },
            None => {},
        }
        let original_deadline = match deadline {
            Some(d) => d,
            None => 0,
        };
        if new_deadline <= now || new_deadline <= original_deadline {
            return Err(ContractError::InvalidInput);
        }
        let request = ExtensionRequest {
            grant_id,
            milestone_idx,
            requested_by: contributor,
            original_deadline,
            new_deadline,
            reason,
            status: ExtensionStatus::Pending,
            votes_approve: 0,
            votes_deny: 0,
            reviewer_votes: Vec::new(),
            requested_at: now,
            resolved_at: None,
        };
        assert(request.reviewer_votes@ =~= Seq::<(AccountId, bool)>::empty());
        self.set_request(request);
        Ok(())
    }

    /// A assessor of the grant votes once on a pending request. A majority of the grant's
    /// assessors (`len / 2 + 1`) approving moves the milestone's deadline; a majority denying
    /// denies it; either way the request is also recorded in the grant's history.
    pub fn vote_extension(
        &mut self,
        grants: &GrantBook,
        milestones: &mut MilestoneBook,
        reviewer: AccountId,
        grant_id: u64,
        milestone_idx: u32,
        approve: bool,
        now: u64,
    ) -> (r: Result<ExtensionStatus, ContractError>)
        requires
            old(self).wf(),
        ensures
            final(self).wf(),
            ({
                let q = old(self).request(grant_id, milestone_idx);
                let req = q->0;
                let found = grants.grants().contains_key(grant_id);
                let g = grants.grants()[grant_id];
                let voted = extension_voters(req.reviewer_votes).contains(reviewer);
                let approvals = if approve { clamp_u32(req.votes_approve + 1) } else { req.votes_approve as int };
                let denials = if approve { req.votes_deny as int } else { clamp_u32(req.votes_deny + 1) };
                let majority = g.reviewers@.len() / 2 + 1;
                let m = old(milestones).milestone(grant_id, milestone_idx);
                let base = ExtensionRequestView {
                    votes_approve: approvals as u32,
                    votes_deny: denials as u32,
                    reviewer_votes: req.reviewer_votes.push((reviewer, approve)),
                    ..req
                };
                &&& q is None ==> r == Err::<ExtensionStatus, ContractError>(ContractError::ExtensionRequestNotFound)
                &&& q is Some && req.status != ExtensionStatus::Pending ==> r == Err::<ExtensionStatus, ContractError>(
                    ContractError::ExtensionAlreadyResolved)
                &&& q is Some && req.status == ExtensionStatus::Pending && !found ==> r == Err::<ExtensionStatus, ContractError>(
                    ContractError::GrantNotFound)
                &&& q is Some && req.status == ExtensionStatus::Pending && found && !g.reviewers@.contains(reviewer) ==> r
                    == Err::<ExtensionStatus, ContractError>(ContractError::Unauthorized)
                &&& q is Some && req.status == ExtensionStatus::Pending && found && g.reviewers@.contains(reviewer) && voted ==> r
                    == Err::<ExtensionStatus, ContractError>(ContractError::AlreadyVoted)
                &&& q is Some && req.status == ExtensionStatus::Pending && found && g.reviewers@.contains(reviewer) && !voted
                    && approvals >= majority && m is None ==> r == Err::<ExtensionStatus, ContractError>(
                    ContractError::MilestoneNotFound)
                &&& r is Ok <==> q is Some && req.status == ExtensionStatus::Pending && found && g.reviewers@.contains(reviewer)
                    && !voted && (approvals >= majority ==> m is Some)
                &&& r is Err ==> (forall|gg: u64, i: u32| #[trigger] final(self).request(gg, i) == old(self).request(gg, i))
                    && (forall|gg: u64| #[trigger] final(self).history(gg) == old(self).history(gg)) && (forall|gg: u64, i: u32|
                    #[trigger] final(milestones).milestone(gg, i) == old(milestones).milestone(gg, i))
                &&& r is Ok && approvals >= majority ==> {
                    let v = ExtensionRequestView { status: ExtensionStatus::Approved, resolved_at: Some(now), ..base };
                    &&& r == Ok::<ExtensionStatus, ContractError>(ExtensionStatus::Approved)
                    &&& forall|gg: u64, i: u32| #[trigger] final(self).request(gg, i) == if gg == grant_id && i == milestone_idx {
                        Some(v)
                    } else {
                        old(self).request(gg, i)
                    }
                    &&& forall|gg: u64| #[trigger] final(self).history(gg) == if gg == grant_id {
                        old(self).history(gg).push(v)
                    } else {
                        old(self).history(gg)
                    }
                    &&& forall|gg: u64, i: u32| #[trigger] final(milestones).milestone(gg, i) == if gg == grant_id && i
                        == milestone_idx {
                        Some(Milestone { deadline: Some(req.new_deadline), ..m->0 })
                    } else {
                        old(milestones).milestone(gg, i)
                    }
                }
                &&& r is Ok && approvals < majority && denials >= majority ==> {
                    let v = ExtensionRequestView { status: ExtensionStatus::Denied, resolved_at: Some(now), ..base };
                    &&& r == Ok::<ExtensionStatus, ContractError>(ExtensionStatus::Denied)
                    &&& forall|gg: u64, i: u32| #[trigger] final(self).request(gg, i) == if gg == grant_id && i == milestone_idx {
                        Some(v)
                    } else {
                        old(self).request(gg, i)
                    }
                    &&& forall|gg: u64| #[trigger] final(self).history(gg) == if gg == grant_id {
                        old(self).history(gg).push(v)
                    } else {
                        old(self).history(gg)
                    }
                    &&& forall|gg: u64, i: u32| #[trigger] final(milestones).milestone(gg, i) == old(milestones).milestone(gg, i)
                }
                &&& r is Ok && approvals < majority && denials < majority ==> {
                    &&& r == Ok::<ExtensionStatus, ContractError>(ExtensionStatus::Pending)
                    &&& forall|gg: u64, i: u32| #[trigger] final(self).request(gg, i) == if gg == grant_id && i == milestone_idx {
                        Some(base)
                    } else {
                        old(self).request(gg, i)
                    }
                    &&& forall|gg: u64| #[trigger] final(self).history(gg) == old(self).history(gg)
                    &&& forall|gg: u64, i: u32| #[trigger] final(milestones).milestone(gg, i) == old(milestones).milestone(gg, i)
                }
            }),
    {
        let k = pair_key(grant_id, milestone_idx as u64);
        let mut request = match self.requests.remove(&k) {
            Some(q) => q,
            None => {
                assert(self.requests@ =~= old(self).requests@);
                assert forall|g: u64, i: u32| #[trigger] self.request(g, i) == old(self).request(g, i) by {}
                return Err(ContractError::ExtensionRequestNotFound);
            },
        };
        let ghost reqs0 = old(self).requests@;
        let ghost q0 = request@;
        let ghost pre = *self;
        proof {
            assert forall|gg: u64, i: u32| #[trigger] pre.request(gg, i) == if gg == grant_id && i == milestone_idx {
                None
            } else {
                old(self).request(gg, i)
            } by {
                lemma_pair_key_injective(gg, i as u64, grant_id, milestone_idx as u64);
            }
        }
        let check: Result<usize, ContractError> = if request.status != ExtensionStatus::Pending {
            Err(ContractError::ExtensionAlreadyResolved)
        } else {
            match grants.get(grant_id) {
                None => Err(ContractError::GrantNotFound),
                Some(g) => {
                    if !crate::escrow::contains_account(&g.reviewers, reviewer) {
                        Err(ContractError::Unauthorized)
                    } else if crate::versioning::has_voted(&request.reviewer_votes, reviewer) {
                        Err(ContractError::AlreadyVoted)
                    } else {
                        Ok(g.reviewers.len())
                    }
                },
            }
        };
        let total_reviewers = match check {
            Err(e) => {
                self.requests.insert(k, request);
                assert(self.requests@ =~= reqs0);
            assert forall|g: u64, i: u32| #[trigger] self.request(g, i) == old(self).request(g, i) by {}
                return Err(e);
            },
            Ok(n) => n,
        };
        proof {
            assert(extension_voters(q0.reviewer_votes) =~= crate::versioning::amendment_voters(q0.reviewer_votes));
        }
        let new_approve = if approve { request.votes_approve.saturating_add(1) } else { request.votes_approve };
        let new_deny = if approve { request.votes_deny } else { request.votes_deny.saturating_add(1) };
        let majority = total_reviewers / 2 + 1;
        if new_approve as usize >= majority && milestones.get(grant_id, milestone_idx).is_none() {
            self.requests.insert(k, request);
            assert(self.requests@ =~= reqs0);
            assert forall|g: u64, i: u32| #[trigger] self.request(g, i) == old(self).request(g, i) by {}
            return Err(ContractError::MilestoneNotFound);
        }
        request.reviewer_votes.push((reviewer, approve));
        request.votes_approve = new_approve;
        request.votes_deny = new_deny;
        if request.votes_approve as usize >= majority {
            let mut milestone = milestones.take(grant_id, milestone_idx).unwrap();
            request.status = ExtensionStatus::Approved;
            request.resolved_at = Some(now);
            milestone.deadline = Some(request.new_deadline);
            milestones.set(grant_id, milestone_idx, milestone);
            let copy = request.duplicate();
            let ghost cv = copy@;
            self.push_history(copy);
            let ghost mid = *self;
            proof {
                assert forall|gg: u64| #[trigger] mid.history(gg) == if gg == grant_id {
                    old(self).history(gg).push(cv)
                } else {
                    old(self).history(gg)
                } by {
                    assert(pre.history(gg) == old(self).history(gg));
                }
            }
            self.requests.insert(k, request);
            proof {
                assert forall|gg: u64, i: u32| #[trigger] self.request(gg, i) == if gg == grant_id && i == milestone_idx {
                    Some(self.requests@[k]@)
                } else {
                    old(self).request(gg, i)
                } by {
                    lemma_pair_key_injective(gg, i as u64, grant_id, milestone_idx as u64);
                    assert(mid.request(gg, i) == pre.request(gg, i));
                }
                assert forall|gg: u64| #[trigger] self.history(gg) == mid.history(gg) by {}
            }
            Ok(ExtensionStatus::Approved)
        } else if request.votes_deny as usize >= majority {
            request.status = ExtensionStatus::Denied;
            request.resolved_at = Some(now);
            let copy = request.duplicate();
            let ghost cv = copy@;
            self.push_history(copy);
            let ghost mid = *self;
            proof {
                assert forall|gg: u64| #[trigger] mid.history(gg) == if gg == grant_id {
                    old(self).history(gg).push(cv)
                } else {
                    old(self).history(gg)
                } by {
                    assert(pre.history(gg) == old(self).history(gg));
                }
            }
            self.requests.insert(k, request);
            proof {
                assert forall|gg: u64, i: u32| #[trigger] self.request(gg, i) == if gg == grant_id && i == milestone_idx {
                    Some(self.requests@[k]@)
                } else {
                    old(self).request(gg, i)
                } by {
                    lemma_pair_key_injective(gg, i as u64, grant_id, milestone_idx as u64);
                    assert(mid.request(gg, i) == pre.request(gg, i));
                }
                assert forall|gg: u64| #[trigger] self.history(gg) == mid.history(gg) by {}
            }
            Ok(ExtensionStatus::Denied)
        } else {
            self.requests.insert(k, request);
            proof {
                assert forall|gg: u64, i: u32| #[trigger] self.request(gg, i) == if gg == grant_id && i == milestone_idx {
                    Some(self.requests@[k]@)
                } else {
                    old(self).request(gg, i)
                } by {
                    lemma_pair_key_injective(gg, i as u64, grant_id, milestone_idx as u64);
                    assert(pre.request(gg, i) == self.request(gg, i) || (gg == grant_id && i == milestone_idx));
                }
                assert forall|gg: u64| #[trigger] self.history(gg) == old(self).history(gg) by {}
            }
            Ok(ExtensionStatus::Pending)
        }
    }

    /// The requester withdraws a pending request; it goes to the grant's history.
    pub fn withdraw_request(&mut self, contributor: AccountId, grant_id: u64, milestone_idx: u32, now: u64) -> (r: Result<
        (),
        ContractError,
    >)
        requires
            old(self).wf(),
        ensures
            final(self).wf(),
            ({
                let q = old(self).request(grant_id, milestone_idx);
                let req = q->0;
                &&& q is None ==> r == Err::<(), ContractError>(ContractError::ExtensionRequestNotFound)
                &&& q is Some && req.status != ExtensionStatus::Pending ==> r == Err::<(), ContractError>(
                    ContractError::ExtensionAlreadyResolved)
                &&& q is Some && req.status == ExtensionStatus::Pending && req.requested_by != contributor ==> r == Err::<
                    (),
                    ContractError,
                >(ContractError::Unauthorized)
                &&& r is Ok <==> q is Some && req.status == ExtensionStatus::Pending && req.requested_by == contributor
                &&& r is Err ==> (forall|gg: u64, i: u32| #[trigger] final(self).request(gg, i) == old(self).request(gg, i))
                    && (forall|gg: u64| #[trigger] final(self).history(gg) == old(self).history(gg))
                &&& r is Ok ==> {
                    &&& forall|gg: u64, i: u32| #[trigger] final(self).request(gg, i) == if gg == grant_id && i == milestone_idx {
                        None
                    } else {
                        old(self).request(gg, i)
                    }
                    &&& forall|gg: u64| #[trigger] final(self).history(gg) == if gg == grant_id {
                        old(self).history(gg).push(ExtensionRequestView {
                            status: ExtensionStatus::Withdrawn,
                            resolved_at: Some(now),
                            ..req
                        })
                    } else {
                        old(self).history(gg)
                    }
                }
            }),
    {
        let k = pair_key(grant_id, milestone_idx as u64);
        let mut request = match self.requests.remove(&k) {
            Some(q) => q,
            None => {
                assert(self.requests@ =~= old(self).requests@);
                assert forall|g: u64, i: u32| #[trigger] self.request(g, i) == old(self).request(g, i) by {}
                return Err(ContractError::ExtensionRequestNotFound);
            },
        };
        let ghost reqs0 = old(self).requests@;
        if request.status != ExtensionStatus::Pending || request.requested_by != contributor {
            let e = if request.status != ExtensionStatus::Pending {
                ContractError::ExtensionAlreadyResolved
            } else {
                ContractError::Unauthorized
            };
            self.requests.insert(k, request);
            assert(self.requests@ =~= reqs0);
            assert forall|g: u64, i: u32| #[trigger] self.request(g, i) == old(self).request(g, i) by {}
            return Err(e);
        }
        request.status = ExtensionStatus::Withdrawn;
        request.resolved_at = Some(now);
        let ghost mid_reqs = self.requests@;
        proof {
            assert forall|gg: u64, i: u32| #[trigger] self.request(gg, i) == if gg == grant_id && i == milestone_idx {
                None
            } else {
                old(self).request(gg, i)
            } by {
                lemma_pair_key_injective(gg, i as u64, grant_id, milestone_idx as u64);
            }
        }
        self.push_history(request);
        Ok(())
    }

    /// The current request of a milestone.
    pub fn get_request(&self, grant_id: u64, milestone_idx: u32) -> (r: Option<ExtensionRequest>)
        ensures
            match r {
                Some(q) => self.request(grant_id, milestone_idx) == Some(q@),
                None => self.request(grant_id, milestone_idx) is None,
            },
    {
        match self.requests.get(&pair_key(grant_id, milestone_idx as u64)) {
            Some(q) => Some(q.duplicate()),
            None => None,
        }
    }
}

/// Whether a milestone is past its deadline at `now` (never without one).
pub fn is_overdue(milestones: &MilestoneBook, grant_id: u64, milestone_idx: u32, now: u64) -> (r: bool)
    ensures
        r == match milestones.milestone(grant_id, milestone_idx) {
            Some(m) => match m.deadline {
                Some(d) => now > d,
                None => false,
            },
            None => false,
        },
{
    match milestones.get(grant_id, milestone_idx) {
        Some(m) => match m.deadline {
            Some(d) => now > d,
            None => false,
        },
        None => false,
    }
}

} // verus!
