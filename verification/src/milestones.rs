use vstd::prelude::*;
use std::collections::HashMap;

use crate::keys::{lemma_pair_key_injective, pair_key, spec_pair_key};
use crate::types::{AccountId, MilestoneState};

verus! {

broadcast use vstd::std_specs::hash::group_hash_axioms;

/// One milestone of a grant.
#[derive(Debug)]
pub struct Milestone {
    pub idx: u32,
    pub description: String,
    pub amount: i128,
    pub state: MilestoneState,
    /// Each assessor's vote (approve or not), in voting order.
    pub votes: Vec<(AccountId, bool)>,
    pub approvals: u32,
    pub rejections: u32,
    /// Each rejecting assessor's reason.
    pub reasons: Vec<(AccountId, String)>,
    pub status_updated_at: u64,
    pub proof_url: Option<String>,
    pub submission_timestamp: u64,
    /// Optional deadline (a ledger timestamp), moved by approved extensions.
    pub deadline: Option<u64>,
    /// The number of assessors when the milestone was submitted; quorums are taken of it.
    pub reviewer_count_snapshot: u32,
}

/// The milestones, by grant and index.
pub struct MilestoneBook {
    milestones: HashMap<u128, Milestone>,
}

impl MilestoneBook {
    /// Milestone `idx` of grant `grant_id`, if any.
    pub closed spec fn milestone(&self, grant_id: u64, idx: u32) -> Option<Milestone> {
        let k = spec_pair_key(grant_id, idx as u64);
        if self.milestones@.contains_key(k) { Some(self.milestones@[k]) } else { None }
    }

    pub fn new() -> (b: MilestoneBook)
        ensures
            forall|g: u64, i: u32| #[trigger] b.milestone(g, i) is None,
    {
        MilestoneBook { milestones: HashMap::new() }
    }

    pub fn get(&self, grant_id: u64, idx: u32) -> (r: Option<&Milestone>)
        ensures
            match r {
                Some(m) => self.milestone(grant_id, idx) == Some(*m),
                None => self.milestone(grant_id, idx) is None,
            },
    {
        self.milestones.get(&pair_key(grant_id, idx as u64))
    }

    /// Store a milestone under its grant and index.
    pub fn set(&mut self, grant_id: u64, idx: u32, m: Milestone)
        ensures
            forall|g: u64, i: u32| #[trigger] final(self).milestone(g, i) == if g == grant_id && i == idx {
                Some(m)
            } else {
                old(self).milestone(g, i)
            },
    {
        let ghost mm = m;
        self.milestones.insert(pair_key(grant_id, idx as u64), m);
        proof {
            assert forall|g: u64, i: u32| #[trigger] self.milestone(g, i) == if g == grant_id && i == idx {
                Some(mm)
            } else {
                old(self).milestone(g, i)
            } by {
                lemma_pair_key_injective(g, i as u64, grant_id, idx as u64);
            }
        }
    }

    /// Take milestone `idx` of grant `grant_id` out of the book.
    pub fn take(&mut self, grant_id: u64, idx: u32) -> (r: Option<Milestone>)
        ensures
            r == old(self).milestone(grant_id, idx),
            forall|g: u64, i: u32| #[trigger] final(self).milestone(g, i) == if g == grant_id && i == idx {
                None
            } else {
                old(self).milestone(g, i)
            },
    {
        let r = self.milestones.remove(&pair_key(grant_id, idx as u64));
        proof {
            assert forall|g: u64, i: u32| #[trigger] self.milestone(g, i) == if g == grant_id && i == idx {
                None::<Milestone>
            } else {
                old(self).milestone(g, i)
            } by {
                lemma_pair_key_injective(g, i as u64, grant_id, idx as u64);
            }
        }
        r
    }

    /// The state of milestone `idx` of grant `grant_id`, if it exists.
    pub fn state_of(&self, grant_id: u64, idx: u32) -> (r: Option<MilestoneState>)
        ensures
            r == match self.milestone(grant_id, idx) {
                Some(m) => Some(m.state),
                None => None,
            },
    {
        match self.get(grant_id, idx) {
            Some(m) => Some(m.state),
            None => None,
        }
    }

    /// The amount of milestone `idx` of grant `grant_id`, if it exists.
    pub fn amount_of(&self, grant_id: u64, idx: u32) -> (r: Option<i128>)
        ensures
            r == match self.milestone(grant_id, idx) {
                Some(m) => Some(m.amount),
                None => None,
            },
    {
        match self.get(grant_id, idx) {
            Some(m) => Some(m.amount),
            None => None,
        }
    }
}

} // verus!
