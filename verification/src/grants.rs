use vstd::prelude::*;
use std::collections::HashMap;

use crate::types::{AccountId, ComplianceLevel, GrantStatus};

verus! {

broadcast use vstd::std_specs::hash::group_hash_axioms;

/// What one funder has put into a grant.
#[derive(Clone, Copy, Debug, PartialEq, Eq, Structural)]
pub struct GrantFund {
    pub funder: AccountId,
    pub amount: i128,
}

/// A milestone-based grant.
#[derive(Clone, Debug)]
pub struct Grant {
    pub id: u64,
    pub owner: AccountId,
    pub title: String,
    pub description: String,
    pub token: AccountId,
    pub status: GrantStatus,
    pub total_amount: i128,
    pub milestone_amount: i128,
    pub reviewers: Vec<AccountId>,
    pub total_milestones: u32,
    pub milestones_paid_out: u32,
    pub escrow_balance: i128,
    pub funders: Vec<GrantFund>,
    pub reason: Option<String>,
    pub timestamp: u64,
    pub require_compliance: Option<ComplianceLevel>,
}

/// A grant as plain values: its strings as character sequences, its lists as sequences.
pub struct GrantView {
    pub id: u64,
    pub owner: AccountId,
    pub title: Seq<char>,
    pub description: Seq<char>,
    pub token: AccountId,
    pub status: GrantStatus,
    pub total_amount: i128,
    pub milestone_amount: i128,
    pub reviewers: Seq<AccountId>,
    pub total_milestones: u32,
    pub milestones_paid_out: u32,
    pub escrow_balance: i128,
    pub funders: Seq<GrantFund>,
    pub reason: Option<Seq<char>>,
    pub timestamp: u64,
    pub require_compliance: Option<ComplianceLevel>,
}

impl View for Grant {
    type V = GrantView;

    open spec fn view(&self) -> GrantView {
        GrantView {
            id: self.id,
            owner: self.owner,
            title: self.title@,
            description: self.description@,
            token: self.token,
            status: self.status,
            total_amount: self.total_amount,
            milestone_amount: self.milestone_amount,
            reviewers: self.reviewers@,
            total_milestones: self.total_milestones,
            milestones_paid_out: self.milestones_paid_out,
            escrow_balance: self.escrow_balance,
            funders: self.funders@,
            reason: match self.reason {
                Some(r) => Some(r@),
                None => None,
            },
            timestamp: self.timestamp,
            require_compliance: self.require_compliance,
        }
    }
}

/// All grants, by id, and the counter from which ids are drawn.
pub struct GrantBook {
    grants: HashMap<u64, Grant>,
    counter: u64,
}

impl GrantBook {
    /// The grants held, by id.
    pub closed spec fn grants(&self) -> Map<u64, Grant> {
        self.grants@
    }

    /// The grants held, by id, as plain values.
    pub open spec fn views(&self) -> Map<u64, GrantView> {
        self.grants().map_values(|g: Grant| g@)
    }

    /// The last id handed out (0 before the first grant).
    pub closed spec fn counter(&self) -> u64 {
        self.counter
    }

    pub fn new() -> (b: GrantBook)
        ensures
            b.grants() == Map::<u64, Grant>::empty(),
            b.counter() == 0,
    {
        GrantBook { grants: HashMap::new(), counter: 0 }
    }

    /// A copy of the book with the same grants and counter.
    pub fn duplicate(&self) -> (r: GrantBook)
        ensures
            r.grants() == self.grants(),
            r.counter() == self.counter(),
    {
        GrantBook { grants: self.grants.clone(), counter: self.counter }
    }

    /// The last id handed out (0 before the first grant).
    pub fn last_id(&self) -> (r: u64)
        ensures
            r == self.counter(),
    {
        self.counter
    }

    /// The id the next grant will get.
    pub fn peek_next_id(&self) -> (id: u64)
        requires
            self.counter() < u64::MAX,
        ensures
            id == self.counter() + 1,
    {
        self.counter + 1
    }

    /// Hand out the next grant id.
    pub fn next_id(&mut self) -> (id: u64)
        requires
            old(self).counter() < u64::MAX,
        ensures
            id == old(self).counter() + 1,
            final(self).counter() == id,
            final(self).grants() == old(self).grants(),
    {
        self.counter = self.counter + 1;
        self.counter
    }

    pub fn get(&self, id: u64) -> (r: Option<&Grant>)
        ensures
            match r {
                Some(g) => self.grants().contains_key(id) && *g == self.grants()[id],
                None => !self.grants().contains_key(id),
            },
    {
        self.grants.get(&id)
    }

    pub fn contains(&self, id: u64) -> (r: bool)
        ensures
            r == self.grants().contains_key(id),
    {
        self.grants.contains_key(&id)
    }

    /// Store `grant` under `id`, replacing any grant held there.
    pub fn set(&mut self, id: u64, grant: Grant)
        ensures
            final(self).grants() == old(self).grants().insert(id, grant),
            final(self).counter() == old(self).counter(),
    {
        self.grants.insert(id, grant);
    }

    /// Take the grant held under `id` out of the book.
    pub fn take(&mut self, id: u64) -> (r: Option<Grant>)
        ensures
            match r {
                Some(g) => old(self).grants().contains_key(id) && g == old(self).grants()[id],
                None => !old(self).grants().contains_key(id),
            },
            final(self).grants() == old(self).grants().remove(id),
            final(self).counter() == old(self).counter(),
    {
        self.grants.remove(&id)
    }
}

/// Index of the first entry of `funds` at or after `i` that belongs to `funder`,
/// or `funds.len()` when there is none.
pub open spec fn spec_find_funder_from(funds: Seq<GrantFund>, funder: AccountId, i: int) -> int
    decreases funds.len() - i,
{
    if i >= funds.len() {
        funds.len() as int
    } else if funds[i].funder == funder {
        i
    } else {
        spec_find_funder_from(funds, funder, i + 1)
    }
}

pub open spec fn spec_find_funder(funds: Seq<GrantFund>, funder: AccountId) -> int {
    spec_find_funder_from(funds, funder, 0)
}

proof fn lemma_find_funder_from_bounds(funds: Seq<GrantFund>, funder: AccountId, i: int)
    requires
        0 <= i,
    ensures
        i <= spec_find_funder_from(funds, funder, i) <= funds.len() || (i > funds.len()
            && spec_find_funder_from(funds, funder, i) == funds.len()),
        spec_find_funder_from(funds, funder, i) < funds.len() ==> funds[spec_find_funder_from(funds, funder, i)].funder == funder,
    decreases funds.len() - i,
{
    if i < funds.len() && funds[i].funder != funder {
        lemma_find_funder_from_bounds(funds, funder, i + 1);
    }
}

/// Position of `funder` in `funds`, found by a scan from the front.
pub fn find_funder(funds: &Vec<GrantFund>, funder: AccountId) -> (r: usize)
    ensures
        r == spec_find_funder(funds@, funder),
        r <= funds.len(),
        r < funds.len() ==> funds@[r as int].funder == funder,
        forall|j: int| 0 <= j < r ==> funds@[j].funder != funder,
{
    let mut i: usize = 0;
    while i < funds.len()
        invariant
            i <= funds.len(),
            spec_find_funder_from(funds@, funder, i as int) == spec_find_funder(funds@, funder),
            forall|j: int| 0 <= j < i ==> funds@[j].funder != funder,
        decreases funds.len() - i,
    {
        if funds[i].funder == funder {
            return i;
        }
        i += 1;
    }
    i
}

/// `funds` after `amount` more from `funder`: added to the funder's first entry,
/// or appended as a new entry.
pub open spec fn spec_credit_funder(funds: Seq<GrantFund>, funder: AccountId, amount: int) -> Seq<GrantFund> {
    let i = spec_find_funder(funds, funder);
    if i < funds.len() {
        funds.update(i, GrantFund { funder, amount: (funds[i].amount + amount) as i128 })
    } else {
        funds.push(GrantFund { funder, amount: amount as i128 })
    }
}

/// Whether crediting `amount` to `funder` in `funds` stays within `i128`.
pub open spec fn spec_credit_fits(funds: Seq<GrantFund>, funder: AccountId, amount: int) -> bool {
    let i = spec_find_funder(funds, funder);
    i < funds.len() ==> i128::MIN <= funds[i].amount + amount <= i128::MAX
}

/// Add `amount` from `funder` to `funds`; `false` (and nothing changed) on overflow.
pub fn credit_funder(funds: &mut Vec<GrantFund>, funder: AccountId, amount: i128) -> (ok: bool)
    ensures
        ok == spec_credit_fits(old(funds)@, funder, amount as int),
        ok ==> final(funds)@ == spec_credit_funder(old(funds)@, funder, amount as int),
        !ok ==> final(funds)@ == old(funds)@,
{
    let i = find_funder(funds, funder);
    if i < funds.len() {
        let entry = funds[i];
        match entry.amount.checked_add(amount) {
            Some(a) => {
                funds.set(i, GrantFund { funder, amount: a });
                true
            },
            None => false,
        }
    } else {
        funds.push(GrantFund { funder, amount });
        true
    }
}

} // verus!
