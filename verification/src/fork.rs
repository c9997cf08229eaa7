use vstd::prelude::*;
use std::collections::HashMap;

use crate::contract::{spec_grant_create_check, StellarGrantsContract};
use crate::errors::ContractError;
use crate::grants::GrantView;
use crate::types::{AccountId, GrantStatus};

verus! {

broadcast use vstd::std_specs::hash::group_hash_axioms;

/// How deep a chain of forks may grow.
pub const MAX_FORK_DEPTH: u32 = 5;

/// A field of a grant that a fork takes over from its original or sets anew.
#[derive(Clone, Copy, Debug, PartialEq, Eq, Structural)]
pub enum ForkField {
    Reviewers,
    Milestones,
    Title,
    Description,
    TotalAmount,
    Token,
}

/// Where a forked grant came from, and what it took over from its original.
#[derive(Debug)]
pub struct ForkRecord {
    pub original_grant_id: u64,
    pub forked_grant_id: u64,
    pub forked_by: AccountId,
    pub forked_at: u64,
    pub inherited_fields: Vec<ForkField>,
    pub overridden_fields: Vec<ForkField>,
}

/// The fork record of each forked grant, and the forks of each grant.
pub struct ForkBook {
    records: HashMap<u64, ForkRecord>,
    children: HashMap<u64, Vec<u64>>,
}

/// The number of forks between `id` and the grant its chain started from, following the
/// originals recorded in `origins`.
pub open spec fn spec_fork_depth(origins: Map<u64, u64>, id: u64) -> nat
    decreases id,
{
    if origins.contains_key(id) && origins[id] < id {
        1 + spec_fork_depth(origins, origins[id])
    } else {
        0
    }
}

/// Whether `ancestor` is on the chain of originals above `id`.
pub open spec fn spec_is_descendant(origins: Map<u64, u64>, ancestor: u64, id: u64) -> bool
    decreases id,
{
    if origins.contains_key(id) && origins[id] < id {
        origins[id] == ancestor || spec_is_descendant(origins, ancestor, origins[id])
    } else {
        false
    }
}

impl ForkBook {
    /// The original of each forked grant.
    pub closed spec fn origins(&self) -> Map<u64, u64> {
        self.records@.map_values(|r: ForkRecord| r.original_grant_id)
    }

    /// The fork record of a grant, if it is a fork.
    pub closed spec fn record(&self, id: u64) -> Option<ForkRecord> {
        if self.records@.contains_key(id) {
            Some(self.records@[id])
        } else {
            None
        }
    }

    /// The forks of a grant, in the order they were made.
    pub closed spec fn forks(&self, id: u64) -> Seq<u64> {
        if self.children@.contains_key(id) {
            self.children@[id]@
        } else {
            Seq::empty()
        }
    }

    /// Every fork was made from an older grant and is recorded under its own id, and no
    /// grant lists a fork twice.
    pub closed spec fn wf(&self) -> bool {
        &&& forall|k: u64|
            #[trigger] self.records@.contains_key(k) ==> self.records@[k].original_grant_id < k
                && self.records@[k].forked_grant_id == k
        &&& forall|k: u64| #[trigger] self.children@.contains_key(k) ==> self.children@[k]@.no_duplicates()
    }

    /// Every recorded fork was made from an older grant.
    pub proof fn lemma_origins_older(&self)
        requires
            self.wf(),
        ensures
            forall|x: u64| #[trigger] self.origins().contains_key(x) ==> self.origins()[x] < x,
    {
    }

    pub fn new() -> (b: ForkBook)
        ensures
            b.wf(),
            b.origins() == Map::<u64, u64>::empty(),
            forall|id: u64| #[trigger] b.record(id) is None,
            forall|id: u64| #[trigger] b.forks(id) == Seq::<u64>::empty(),
    {
        let b = ForkBook { records: HashMap::new(), children: HashMap::new() };
        assert(b.origins() =~= Map::<u64, u64>::empty());
        b
    }

    /// The fork record of a grant.
    pub fn get_fork_record(&self, grant_id: u64) -> (r: Option<&ForkRecord>)
        ensures
            match r {
                Some(x) => self.record(grant_id) == Some(*x),
                None => self.record(grant_id) is None,
            },
    {
        self.records.get(&grant_id)
    }

    /// The forks of a grant.
    pub fn get_forks(&self, original_grant_id: u64) -> (r: Vec<u64>)
        ensures
            r@ == self.forks(original_grant_id),
    {
        match self.children.get(&original_grant_id) {
            Some(v) => v.clone(),
            None => Vec::new(),
        }
    }

    /// How many forks separate a grant from the grant its chain started from.
    pub fn fork_depth(&self, grant_id: u64) -> (d: u32)
        requires
            self.wf(),
            spec_fork_depth(self.origins(), grant_id) <= u32::MAX,
        ensures
            d == spec_fork_depth(self.origins(), grant_id),
    {
        let mut depth: u32 = 0;
        let mut current = grant_id;
        loop
            invariant
                self.wf(),
                depth + spec_fork_depth(self.origins(), current) == spec_fork_depth(self.origins(), grant_id),
                spec_fork_depth(self.origins(), grant_id) <= u32::MAX,
            ensures
                depth == spec_fork_depth(self.origins(), grant_id),
            decreases current,
        {
            match self.records.get(&current) {
                Some(record) => {
                    assert(self.origins().contains_key(current));
                    current = record.original_grant_id;
                    depth += 1;
                },
                None => {
                    assert(!self.origins().contains_key(current));
                    break;
                },
            }
        }
        depth
    }

    /// Whether `ancestor_id` is on the chain of originals above `descendant_id`.
    pub fn is_descendant(&self, ancestor_id: u64, descendant_id: u64) -> (r: bool)
        requires
            self.wf(),
        ensures
            r == spec_is_descendant(self.origins(), ancestor_id, descendant_id),
    {
        let mut current = descendant_id;
        loop
            invariant
                self.wf(),
                spec_is_descendant(self.origins(), ancestor_id, descendant_id) == spec_is_descendant(
                    self.origins(),
                    ancestor_id,
                    current,
                ),
            decreases current,
        {
            match self.records.get(&current) {
                Some(record) => {
                    assert(self.origins().contains_key(current));
                    if record.original_grant_id == ancestor_id {
                        return true;
                    }
                    current = record.original_grant_id;
                },
                None => {
                    assert(!self.origins().contains_key(current));
                    return false;
                },
            }
        }
    }
}

/// Why forking `original_grant_id` is refused, if it is, before the new grant is checked.
pub open spec fn spec_fork_check(c: &StellarGrantsContract, forks: &ForkBook, original_grant_id: u64) -> Result<
    (),
    ContractError,
> {
    let g = c.grants.views()[original_grant_id];
    if !c.grants.views().contains_key(original_grant_id) {
        Err(ContractError::GrantNotFound)
    } else if g.status == GrantStatus::Cancelled {
        Err(ContractError::InvalidState)
    } else if spec_fork_depth(forks.origins(), original_grant_id) >= MAX_FORK_DEPTH {
        Err(ContractError::InvalidInput)
    } else {
        Ok(())
    }
}

/// Fork a grant that is not cancelled into a new grant of `caller`, with a new title,
/// description, total and token, the original's milestone plan, and its assessors when asked.
/// Chains of forks are at most `MAX_FORK_DEPTH` deep.
pub fn fork_grant(
    c: &mut StellarGrantsContract,
    forks: &mut ForkBook,
    caller: AccountId,
    original_grant_id: u64,
    new_title: String,
    new_description: String,
    new_total_amount: i128,
    new_token: AccountId,
    inherit_reviewers: bool,
    inherit_milestones: bool,
    now: u64,
) -> (r: Result<u64, ContractError>)
    requires
        old(c).grants.counter() < u64::MAX,
        old(c).ids_wf(),
        old(forks).wf(),
        old(c).grants.views().contains_key(original_grant_id) ==> spec_fork_depth(old(forks).origins(), original_grant_id)
            <= u32::MAX,
    ensures
        ({
            let pre = spec_fork_check(old(c), old(forks), original_grant_id);
            let g = old(c).grants.views()[original_grant_id];
            let reviewers = if inherit_reviewers { g.reviewers } else { Seq::<AccountId>::empty() };
            let create = spec_grant_create_check(old(c).config, new_total_amount, g.milestone_amount, g.total_milestones, reviewers.len());
            let id = (old(c).grants.counter() + 1) as u64;
            &&& pre is Err ==> r == Err::<u64, ContractError>(pre->Err_0)
            &&& pre is Ok && create is Err ==> r == Err::<u64, ContractError>(create->Err_0)
            &&& pre is Ok && create is Ok && old(c).escrow.accounts().contains_key(id) ==> r == Err::<u64, ContractError>(
                ContractError::EscrowAlreadyOpen)
            &&& r is Ok <==> pre is Ok && create is Ok && !old(c).escrow.accounts().contains_key(id)
            &&& r is Err ==> *final(c) == *old(c) && final(forks).origins() == old(forks).origins() && forall|k: u64|
                #[trigger] final(forks).forks(k) == old(forks).forks(k)
            &&& final(forks).wf()
            &&& old(c).ids_wf() ==> final(c).ids_wf()
            &&& r is Ok && !old(forks).origins().contains_key(id) ==> spec_fork_depth(final(forks).origins(), id)
                == spec_fork_depth(old(forks).origins(), original_grant_id) + 1 <= MAX_FORK_DEPTH
            &&& r is Ok ==> {
                &&& r->Ok_0 == id
                &&& old(c).spec_grant_created(
                    final(c),
                    id,
                    caller,
                    new_title@,
                    new_description@,
                    new_token,
                    new_total_amount,
                    g.milestone_amount,
                    g.total_milestones,
                    reviewers,
                    now,
                )
                &&& final(forks).origins() == old(forks).origins().insert(id, original_grant_id)
                &&& final(forks).record(id) matches Some(rec) && {
                    &&& rec.original_grant_id == original_grant_id
                    &&& rec.forked_grant_id == id
                    &&& rec.forked_by == caller
                    &&& rec.forked_at == now
                    &&& rec.inherited_fields@ == (if inherit_reviewers {
                        seq![ForkField::Reviewers]
                    } else {
                        Seq::empty()
                    }) + (if inherit_milestones { seq![ForkField::Milestones] } else { Seq::empty() })
                    &&& rec.overridden_fields@ == seq![
                        ForkField::Title,
                        ForkField::Description,
                        ForkField::TotalAmount,
                        ForkField::Token,
                    ]
                }
                &&& forall|k: u64| k != id ==> #[trigger] final(forks).record(k) == old(forks).record(k)
                &&& forall|k: u64| #[trigger] final(forks).forks(k) == if k == original_grant_id && !old(forks).forks(
                    original_grant_id,
                ).contains(id) {
                    old(forks).forks(original_grant_id).push(id)
                } else {
                    old(forks).forks(k)
                }
            }
        }),
{
    let (status, milestone_amount, total_milestones) = match c.grants.get(original_grant_id) {
        Some(g) => (g.status, g.milestone_amount, g.total_milestones),
        None => return Err(ContractError::GrantNotFound),
    };
    if status == GrantStatus::Cancelled {
        return Err(ContractError::InvalidState);
    }
    let depth = forks.fork_depth(original_grant_id);
    if depth >= MAX_FORK_DEPTH {
        return Err(ContractError::InvalidInput);
    }
    let reviewers: Vec<AccountId> = if inherit_reviewers {
        let src = &c.grants.get(original_grant_id).unwrap().reviewers;
        let mut v: Vec<AccountId> = Vec::new();
        let mut i: usize = 0;
        while i < src.len()
            invariant
                i <= src.len(),
                v@ == src@.subrange(0, i as int),
            decreases src.len() - i,
        {
            v.push(src[i]);
            i += 1;
        }
        assert(v@ =~= src@);
        v
    } else {
        Vec::new()
    };
    let new_grant_id = match c.grant_create(
        caller,
        new_title,
        new_description,
        new_token,
        new_total_amount,
        milestone_amount,
        total_milestones,
        reviewers,
        now,
    ) {
        Ok(id) => id,
        Err(e) => return Err(e),
    };
    let mut inherited_fields: Vec<ForkField> = Vec::new();
    if inherit_reviewers {
        inherited_fields.push(ForkField::Reviewers);
    }
    if inherit_milestones {
        inherited_fields.push(ForkField::Milestones);
    }
    let mut overridden_fields: Vec<ForkField> = Vec::new();
    overridden_fields.push(ForkField::Title);
    overridden_fields.push(ForkField::Description);
    overridden_fields.push(ForkField::TotalAmount);
    overridden_fields.push(ForkField::Token);
    proof {
        assert(inherited_fields@ =~= (if inherit_reviewers {
            seq![ForkField::Reviewers]
        } else {
            Seq::empty()
        }) + (if inherit_milestones { seq![ForkField::Milestones] } else { Seq::empty() }));
        assert(overridden_fields@ =~= seq![
            ForkField::Title,
            ForkField::Description,
            ForkField::TotalAmount,
            ForkField::Token,
        ]);
    }
    let record = ForkRecord {
        original_grant_id,
        forked_grant_id: new_grant_id,
        forked_by: caller,
        forked_at: now,
        inherited_fields,
        overridden_fields,
    };
    forks.records.insert(new_grant_id, record);
    proof {
        assert(forks.origins() =~= old(forks).origins().insert(new_grant_id, original_grant_id));
        assert(original_grant_id <= old(c).grants.counter());
        old(forks).lemma_origins_older();
        if !old(forks).origins().contains_key(new_grant_id) {
            crate::laws::lemma_fork_depth_after_fork(old(forks).origins(), original_grant_id, new_grant_id, new_grant_id);
        }
    }
    proof {
        assert(old(forks).children@ == forks.children@);
    }
    let mut children = match forks.children.remove(&original_grant_id) {
        Some(v) => v,
        None => Vec::new(),
    };
    let ghost c0 = children@;
    proof {
        assert(c0.no_duplicates());
    }
    let mut present = false;
    let mut i: usize = 0;
    while i < children.len()
        invariant
            i <= children.len(),
            present == exists|j: int| 0 <= j < i && #[trigger] children@[j] == new_grant_id,
        decreases children.len() - i,
    {
        if children[i] == new_grant_id {
            present = true;
        }
        i += 1;
    }
    assert(present == children@.contains(new_grant_id));
    if !present {
        children.push(new_grant_id);
        proof {
            assert forall|i: int, j: int| 0 <= i < j < children@.len() implies children@[i] != children@[j] by {
                if j == c0.len() {
                    assert(c0.contains(c0[i]));
                } else {
                    assert(c0[i] != c0[j]);
                }
            }
        }
    }
    forks.children.insert(original_grant_id, children);
    Ok(new_grant_id)
}

/// A fork is a descendant of its original, and is listed among the original's forks
/// exactly once.
pub proof fn lemma_fork_listed_once(f0: &ForkBook, f1: &ForkBook, original: u64, id: u64)
    requires
        f1.wf(),
        original < id,
        f1.origins() == f0.origins().insert(id, original),
        forall|k: u64| #[trigger] f1.forks(k) == if k == original && !f0.forks(original).contains(id) {
            f0.forks(original).push(id)
        } else {
            f0.forks(k)
        },
    ensures
        spec_is_descendant(f1.origins(), original, id),
        exists|i: int| 0 <= i < f1.forks(original).len() && f1.forks(original)[i] == id,
        forall|i: int, j: int|
            0 <= i < f1.forks(original).len() && 0 <= j < f1.forks(original).len() && f1.forks(original)[i] == id
                && f1.forks(original)[j] == id ==> i == j,
{
    let m = f1.forks(original);
    if f1.children@.contains_key(original) {
        assert(m.no_duplicates());
    }
    if f0.forks(original).contains(id) {
        let k = choose|k: int| 0 <= k < f0.forks(original).len() && f0.forks(original)[k] == id;
        assert(m[k] == id);
    } else {
        assert(m[m.len() - 1] == id);
    }
}

} // verus!
