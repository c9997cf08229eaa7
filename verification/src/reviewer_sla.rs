use vstd::prelude::*;
use std::collections::HashMap;

use crate::keys::{lemma_pair_key_injective, pair_key, spec_pair_key};
use crate::types::AccountId;

verus! {

broadcast use vstd::std_specs::hash::group_hash_axioms;

/// The deadline by which a assessor must vote on a milestone, and what became of it.
#[derive(Clone, Copy, Debug, PartialEq, Eq, Structural)]
pub struct ReviewerSlaRecord {
    pub reviewer: AccountId,
    pub milestone_id: u64,
    pub deadline: u64,
    /// The assessor voted within the window.
    pub fulfilled: bool,
    /// The deadline passed without a vote.
    pub breached: bool,
}

/// The SLA records by (assessor, milestone).
pub struct SlaBook {
    records: HashMap<u128, ReviewerSlaRecord>,
}

impl SlaBook {
    pub closed spec fn record(&self, reviewer: AccountId, milestone_id: u64) -> Option<ReviewerSlaRecord> {
        let k = spec_pair_key(reviewer, milestone_id);
        if self.records@.contains_key(k) { Some(self.records@[k]) } else { None }
    }

    pub fn new() -> (b: SlaBook)
        ensures
            forall|r: AccountId, m: u64| #[trigger] b.record(r, m) is None,
    {
        SlaBook { records: HashMap::new() }
    }

    fn set(&mut self, reviewer: AccountId, milestone_id: u64, rec: ReviewerSlaRecord)
        ensures
            forall|r: AccountId, m: u64| #[trigger] final(self).record(r, m) == if r == reviewer && m == milestone_id {
                Some(rec)
            } else {
                old(self).record(r, m)
            },
    {
        self.records.insert(pair_key(reviewer, milestone_id), rec);
        proof {
            assert forall|r: AccountId, m: u64| #[trigger] self.record(r, m) == if r == reviewer && m == milestone_id {
                Some(rec)
            } else {
                old(self).record(r, m)
            } by {
                lemma_pair_key_injective(r, m, reviewer, milestone_id);
            }
        }
    }

    /// Start (or restart) a assessor's SLA on a milestone with a deadline.
    pub fn register_sla(&mut self, reviewer: AccountId, milestone_id: u64, deadline: u64)
        ensures
            forall|r: AccountId, m: u64| #[trigger] final(self).record(r, m) == if r == reviewer && m == milestone_id {
                Some(ReviewerSlaRecord { reviewer, milestone_id, deadline, fulfilled: false, breached: false })
            } else {
                old(self).record(r, m)
            },
    {
        self.set(reviewer, milestone_id, ReviewerSlaRecord { reviewer, milestone_id, deadline, fulfilled: false, breached: false });
    }

    /// Mark an open SLA fulfilled (the assessor voted); nothing otherwise.
    pub fn fulfill_sla(&mut self, reviewer: AccountId, milestone_id: u64)
        ensures
            ({
                let x = old(self).record(reviewer, milestone_id);
                let rec = x->0;
                let open = x is Some && !rec.fulfilled && !rec.breached;
                forall|r: AccountId, m: u64| #[trigger] final(self).record(r, m) == if open && r == reviewer && m
                    == milestone_id {
                    Some(ReviewerSlaRecord { fulfilled: true, ..rec })
                } else {
                    old(self).record(r, m)
                }
            }),
    {
        let rec = match self.records.get(&pair_key(reviewer, milestone_id)) {
            Some(r) => *r,
            None => return,
        };
        if rec.fulfilled || rec.breached {
            return;
        }
        self.set(reviewer, milestone_id, ReviewerSlaRecord { fulfilled: true, ..rec });
    }

    /// Whether the SLA is breached at `now`: already breached, or open and past its deadline
    /// (which marks it breached). `false` without an SLA.
    pub fn check_and_mark_breach(&mut self, reviewer: AccountId, milestone_id: u64, now: u64) -> (r: bool)
        ensures
            ({
                let x = old(self).record(reviewer, milestone_id);
                let rec = x->0;
                let marks = x is Some && !rec.fulfilled && !rec.breached && now > rec.deadline;
                &&& r == (x is Some && (rec.breached || marks))
                &&& forall|rr: AccountId, m: u64| #[trigger] final(self).record(rr, m) == if marks && rr == reviewer && m
                    == milestone_id {
                    Some(ReviewerSlaRecord { breached: true, ..rec })
                } else {
                    old(self).record(rr, m)
                }
            }),
    {
        let rec = match self.records.get(&pair_key(reviewer, milestone_id)) {
            Some(r) => *r,
            None => return false,
        };
        if rec.fulfilled || rec.breached {
            return rec.breached;
        }
        if now > rec.deadline {
            self.set(reviewer, milestone_id, ReviewerSlaRecord { breached: true, ..rec });
            return true;
        }
        false
    }

    /// The SLA of a assessor on a milestone.
    pub fn get_sla(&self, reviewer: AccountId, milestone_id: u64) -> (r: Option<ReviewerSlaRecord>)
        ensures
            r == self.record(reviewer, milestone_id),
    {
        match self.records.get(&pair_key(reviewer, milestone_id)) {
            Some(r) => Some(*r),
            None => None,
        }
    }
}

} // verus!
