use vstd::prelude::*;

use crate::arith::{clamp_i128, clamp_u32};
use crate::errors::ContractError;
use crate::grant_index::GrantIndex;
use crate::grants::{Grant, GrantBook};
use crate::types::{AccountId, BatchResult, GrantStatus};

verus! {

/// Which of an owner's grants to list.
#[derive(Clone, Copy, Debug, PartialEq, Eq, Structural)]
pub struct PortfolioFilter {
    pub owner: Option<AccountId>,
    pub status: Option<GrantStatus>,
    pub token: Option<AccountId>,
    pub category_id: Option<u32>,
    pub min_amount: Option<i128>,
    pub max_amount: Option<i128>,
}

/// Aggregates over the grants of one owner.
#[derive(Clone, Copy, Debug, PartialEq, Eq, Structural)]
pub struct PortfolioStats {
    pub owner: AccountId,
    pub total_grants: u32,
    pub active_grants: u32,
    pub completed_grants: u32,
    pub total_funded: i128,
    pub total_paid_out: i128,
    pub total_in_escrow: i128,
    pub unique_contributors: u32,
    pub unique_reviewers: u32,
    pub avg_completion_rate_bps: u32,
}

/// An owner's grant ids with their aggregates.
#[derive(Clone, Debug)]
pub struct GrantPortfolio {
    pub owner: AccountId,
    pub grant_ids: Vec<u64>,
    pub stats: PortfolioStats,
}

/// The grants among `ids` that exist in `grants`, in order.
pub open spec fn spec_found(ids: Seq<u64>, grants: Map<u64, Grant>) -> Seq<Grant>
    decreases ids.len(),
{
    if ids.len() == 0 {
        Seq::empty()
    } else {
        let prev = spec_found(ids.drop_last(), grants);
        if grants.contains_key(ids.last()) { prev.push(grants[ids.last()]) } else { prev }
    }
}

/// `acc` extended by each entry of `xs` that it does not hold yet, in order.
pub open spec fn spec_add_new(acc: Seq<AccountId>, xs: Seq<AccountId>) -> Seq<AccountId>
    decreases xs.len(),
{
    if xs.len() == 0 {
        acc
    } else {
        let prev = spec_add_new(acc, xs.drop_last());
        if prev.contains(xs.last()) { prev } else { prev.push(xs.last()) }
    }
}

/// The distinct owners of `gs`, in order of first appearance.
pub open spec fn spec_owners(gs: Seq<Grant>) -> Seq<AccountId>
    decreases gs.len(),
{
    if gs.len() == 0 {
        Seq::empty()
    } else {
        spec_add_new(spec_owners(gs.drop_last()), seq![gs.last().owner])
    }
}

/// The distinct assessors of `gs`, in order of first appearance.
pub open spec fn spec_reviewers(gs: Seq<Grant>) -> Seq<AccountId>
    decreases gs.len(),
{
    if gs.len() == 0 {
        Seq::empty()
    } else {
        spec_add_new(spec_reviewers(gs.drop_last()), gs.last().reviewers@)
    }
}

/// A grant's completion rate in basis points (0 without milestones).
pub open spec fn spec_completion_rate(g: Grant) -> int {
    if g.total_milestones > 0 { (g.milestones_paid_out * 10000) / g.total_milestones as int } else { 0 }
}

/// What a completed grant has paid out: its total less what remains in escrow, at least 0.
pub open spec fn spec_paid_out(g: Grant) -> int {
    let d = clamp_i128(g.total_amount - g.escrow_balance);
    if d > 0 { d } else { 0 }
}

/// The running totals of the portfolio statistics over `gs` (saturating), as
/// (total, active, completed, funded, paid out, in escrow, sum of completion rates).
pub open spec fn spec_totals(gs: Seq<Grant>) -> (int, int, int, int, int, int, int)
    decreases gs.len(),
{
    if gs.len() == 0 {
        (0, 0, 0, 0, 0, 0, 0)
    } else {
        let p = spec_totals(gs.drop_last());
        let g = gs.last();
        (
            clamp_u32(p.0 + 1),
            if g.status == GrantStatus::Active { clamp_u32(p.1 + 1) } else { p.1 },
            if g.status == GrantStatus::Completed { clamp_u32(p.2 + 1) } else { p.2 },
            clamp_i128(p.3 + g.total_amount),
            if g.status == GrantStatus::Completed { clamp_i128(p.4 + spec_paid_out(g)) } else { p.4 },
            clamp_i128(p.5 + g.escrow_balance),
            clamp_u32(p.6 + spec_completion_rate(g)),
        )
    }
}

/// Every grant's `milestones_paid_out * 10000` fits in `u32` where it is computed.
pub open spec fn spec_rates_fit(gs: Seq<Grant>) -> bool {
    forall|i: int| 0 <= i < gs.len() && (#[trigger] gs[i]).total_milestones > 0 ==> gs[i].milestones_paid_out * 10000 <= u32::MAX
}

/// The portfolio statistics of `owner` over the grants `gs`.
pub open spec fn spec_portfolio_stats(owner: AccountId, gs: Seq<Grant>) -> PortfolioStats {
    let t = spec_totals(gs);
    PortfolioStats {
        owner,
        total_grants: t.0 as u32,
        active_grants: t.1 as u32,
        completed_grants: t.2 as u32,
        total_funded: t.3 as i128,
        total_paid_out: t.4 as i128,
        total_in_escrow: t.5 as i128,
        unique_contributors: spec_owners(gs).len() as u32,
        unique_reviewers: spec_reviewers(gs).len() as u32,
        avg_completion_rate_bps: if t.0 > 0 { (t.6 / t.0) as u32 } else { 0 },
    }
}

proof fn lemma_totals_range(gs: Seq<Grant>)
    ensures
        ({
            let t = spec_totals(gs);
            &&& 0 <= t.0 <= u32::MAX && 0 <= t.1 <= u32::MAX && 0 <= t.2 <= u32::MAX && 0 <= t.6 <= u32::MAX
            &&& i128::MIN <= t.3 <= i128::MAX && i128::MIN <= t.4 <= i128::MAX && i128::MIN <= t.5 <= i128::MAX
        }),
    decreases gs.len(),
{
    if gs.len() > 0 {
        lemma_totals_range(gs.drop_last());
    }
}

/// Append to `acc` each entry of `xs` that it does not hold yet.
fn add_new(acc: &mut Vec<AccountId>, xs: &Vec<AccountId>)
    ensures
        final(acc)@ == spec_add_new(old(acc)@, xs@),
{
    let mut j: usize = 0;
    while j < xs.len()
        invariant
            j <= xs@.len(),
            acc@ == spec_add_new(old(acc)@, xs@.take(j as int)),
        decreases xs@.len() - j,
    {
        let x = xs[j];
        proof {
            assert(xs@.take(j + 1).drop_last() == xs@.take(j as int));
        }
        if !crate::escrow::contains_account(acc, x) {
            acc.push(x);
        }
        j += 1;
    }
    proof {
        assert(xs@.take(xs@.len() as int) == xs@);
    }
}

/// Aggregates over the grants indexed under `owner`.
pub fn get_portfolio_stats(index: &GrantIndex, grants: &GrantBook, owner: AccountId) -> (r: PortfolioStats)
    requires
        spec_rates_fit(spec_found(index.owner_list(owner), grants.grants())),
    ensures
        r == spec_portfolio_stats(owner, spec_found(index.owner_list(owner), grants.grants())),
{
    let ids = index.by_owner_lists_get(owner);
    let ghost all = spec_found(ids@, grants.grants());
    let mut total: u32 = 0;
    let mut active: u32 = 0;
    let mut completed: u32 = 0;
    let mut funded: i128 = 0;
    let mut paid: i128 = 0;
    let mut in_escrow: i128 = 0;
    let mut rates: u32 = 0;
    let mut contributors: Vec<AccountId> = Vec::new();
    let mut reviewers: Vec<AccountId> = Vec::new();
    let mut i: usize = 0;
    while i < ids.len()
        invariant
            i <= ids@.len(),
            ids@ == index.owner_list(owner),
            all == spec_found(ids@, grants.grants()),
            spec_rates_fit(all),
            spec_found(ids@.take(i as int), grants.grants()).is_prefix_of(all),
            ({
                let gs = spec_found(ids@.take(i as int), grants.grants());
                let t = spec_totals(gs);
                &&& total == t.0 && active == t.1 && completed == t.2 && funded == t.3 && paid == t.4
                &&& in_escrow == t.5 && rates == t.6
                &&& contributors@ == spec_owners(gs)
                &&& reviewers@ == spec_reviewers(gs)
            }),
        decreases ids@.len() - i,
    {
        let gid = ids[i];
        let ghost prev = spec_found(ids@.take(i as int), grants.grants());
        proof {
            assert(ids@.take(i + 1).drop_last() == ids@.take(i as int));
            lemma_found_prefix(ids@, grants.grants(), i + 1);
            lemma_totals_range(prev);
        }
        match grants.get(gid) {
            Some(grant) => {
                let ghost now_gs = prev.push(*grant);
                proof {
                    assert(spec_found(ids@.take(i + 1), grants.grants()) == now_gs);
                    assert(now_gs.drop_last() == prev);
                    assert(now_gs.is_prefix_of(all));
                    assert(now_gs[prev.len() as int] == *grant);
                    assert(all.subrange(0, now_gs.len() as int)[prev.len() as int] == all[prev.len() as int]);
                    assert(all[prev.len() as int] == *grant);
                    assert(spec_rates_fit(all));
                    assert(grant.total_milestones > 0 ==> grant.milestones_paid_out * 10000 <= u32::MAX) by {
                        assert(all[prev.len() as int] == *grant);
                    }
                }
                total = total.saturating_add(1);
                funded = crate::arith::sat_add_i128(funded, grant.total_amount);
                in_escrow = crate::arith::sat_add_i128(in_escrow, grant.escrow_balance);
                if grant.status == GrantStatus::Completed {
                    completed = completed.saturating_add(1);
                    let d = crate::arith::sat_sub_i128(grant.total_amount, grant.escrow_balance);
                    let paid_out = if d > 0 { d } else { 0 };
                    paid = crate::arith::sat_add_i128(paid, paid_out);
                } else if grant.status == GrantStatus::Active {
                    active = active.saturating_add(1);
                }
                let one: Vec<AccountId> = vec![grant.owner];
                add_new(&mut contributors, &one);
                add_new(&mut reviewers, &grant.reviewers);
                if grant.total_milestones > 0 {
                    let rate = (grant.milestones_paid_out * 10000) / grant.total_milestones;
                    rates = rates.saturating_add(rate);
                }
                proof {
                    assert(one@ == seq![grant.owner]);
                }
            },
            None => {
                proof {
                    assert(spec_found(ids@.take(i + 1), grants.grants()) == prev);
                }
            },
        }
        i += 1;
    }
    proof {
        assert(ids@.take(ids@.len() as int) == ids@);
        lemma_totals_range(all);
    }
    let avg: u32 = if total > 0 { rates / total } else { 0 };
    PortfolioStats {
        owner,
        total_grants: total,
        active_grants: active,
        completed_grants: completed,
        total_funded: funded,
        total_paid_out: paid,
        total_in_escrow: in_escrow,
        unique_contributors: contributors.len() as u32,
        unique_reviewers: reviewers.len() as u32,
        avg_completion_rate_bps: avg,
    }
}

/// The found grants of a prefix of the ids are a prefix of those of all the ids.
pub proof fn lemma_found_prefix(ids: Seq<u64>, grants: Map<u64, Grant>, n: int)
    requires
        0 <= n <= ids.len(),
    ensures
        spec_found(ids.take(n), grants).is_prefix_of(spec_found(ids, grants)),
    decreases ids.len() - n,
{
    if n < ids.len() {
        lemma_found_prefix(ids, grants, n + 1);
        assert(ids.take(n + 1).drop_last() == ids.take(n));
    } else {
        assert(ids.take(n) == ids);
    }
}

/// Whether a grant passes a filter's status, token and amount bounds.
pub open spec fn spec_matches(filter: PortfolioFilter, g: Grant) -> bool {
    &&& (filter.status matches Some(s) ==> s == g.status)
    &&& (filter.token matches Some(t) ==> t == g.token)
    &&& (filter.min_amount matches Some(m) ==> m <= g.total_amount)
    &&& (filter.max_amount matches Some(m) ==> m >= g.total_amount)
}

/// The ids in `ids` whose grant exists and passes the filter, in order.
pub open spec fn spec_filtered(ids: Seq<u64>, grants: Map<u64, Grant>, filter: PortfolioFilter) -> Seq<u64>
    decreases ids.len(),
{
    if ids.len() == 0 {
        Seq::empty()
    } else {
        let prev = spec_filtered(ids.drop_last(), grants, filter);
        let id = ids.last();
        if grants.contains_key(id) && spec_matches(filter, grants[id]) { prev.push(id) } else { prev }
    }
}

/// The grant ids of the filter's owner within the page `offset .. offset + limit` of the
/// owner's index that exist and pass the filter; none without an owner.
pub fn filter_grants(index: &GrantIndex, grants: &GrantBook, filter: PortfolioFilter, offset: u32, limit: u32) -> (r: Vec<u64>)
    requires
        filter.owner is Some ==> offset + limit <= u32::MAX,
    ensures
        r@ == match filter.owner {
            Some(o) => spec_filtered(crate::grant_index::spec_page(index.owner_list(o), offset as int, limit as int),
                grants.grants(), filter),
            None => Seq::<u64>::empty(),
        },
{
    let owner = match filter.owner {
        Some(o) => o,
        None => return Vec::new(),
    };
    let ids = index.by_owner_lists_get(owner);
    let page = crate::grant_index::paginate(&ids, offset, limit);
    let mut results: Vec<u64> = Vec::new();
    let mut i: usize = 0;
    while i < page.len()
        invariant
            i <= page@.len(),
            results@ == spec_filtered(page@.take(i as int), grants.grants(), filter),
        decreases page@.len() - i,
    {
        let gid = page[i];
        proof {
            assert(page@.take(i + 1).drop_last() == page@.take(i as int));
        }
        match grants.get(gid) {
            Some(g) => {
                let matches_status = match filter.status {
                    Some(s) => s == g.status,
                    None => true,
                };
                let matches_token = match filter.token {
                    Some(t) => t == g.token,
                    None => true,
                };
                let min_ok = match filter.min_amount {
                    Some(m) => m <= g.total_amount,
                    None => true,
                };
                let max_ok = match filter.max_amount {
                    Some(m) => m >= g.total_amount,
                    None => true,
                };
                if matches_status && matches_token && min_ok && max_ok {
                    results.push(gid);
                }
            },
            None => {},
        }
        i += 1;
    }
    proof {
        assert(page@.take(page@.len() as int) == page@);
    }
    results
}

/// The owner of a grant adds a assessor to it (nothing changes when it is already there).
pub fn add_reviewer_to_grant(grants: &mut GrantBook, owner: AccountId, grant_id: u64, reviewer: AccountId) -> (r: Result<
    (),
    ContractError,
>)
    ensures
        final(grants).counter() == old(grants).counter(),
        !old(grants).grants().contains_key(grant_id) ==> r == Err::<(), ContractError>(ContractError::GrantNotFound),
        old(grants).grants().contains_key(grant_id) && old(grants).grants()[grant_id].owner != owner ==> r == Err::<
            (),
            ContractError,
        >(ContractError::Unauthorized),
        r is Ok <==> old(grants).grants().contains_key(grant_id) && old(grants).grants()[grant_id].owner == owner,
        r is Err ==> final(grants).grants() == old(grants).grants(),
        r is Ok ==> {
            let g = old(grants).grants()[grant_id];
            if g.reviewers@.contains(reviewer) {
                final(grants).grants() == old(grants).grants()
            } else {
                &&& final(grants).grants() == old(grants).grants().insert(grant_id, Grant {
                    reviewers: final(grants).grants()[grant_id].reviewers,
                    ..g
                })
                &&& final(grants).grants()[grant_id].reviewers@ == g.reviewers@.push(reviewer)
            }
        },
{
    let mut grant = match grants.take(grant_id) {
        Some(g) => g,
        None => {
            assert(grants.grants() =~= old(grants).grants());
            return Err(ContractError::GrantNotFound);
        },
    };
    let ghost g0 = grant;
    if grant.owner != owner {
        grants.set(grant_id, grant);
        assert(grants.grants() =~= old(grants).grants());
        return Err(ContractError::Unauthorized);
    }
    if crate::escrow::contains_account(&grant.reviewers, reviewer) {
        grants.set(grant_id, grant);
        assert(grants.grants() =~= old(grants).grants());
        return Ok(());
    }
    grant.reviewers.push(reviewer);
    grants.set(grant_id, grant);
    assert(grants.grants() =~= old(grants).grants().insert(grant_id, Grant { reviewers: grants.grants()[grant_id].reviewers, ..g0 }));
    Ok(())
}

/// The owner of a grant removes a assessor from it (every occurrence); refused when the
/// assessor is not listed.
pub fn remove_reviewer_from_grant(grants: &mut GrantBook, owner: AccountId, grant_id: u64, reviewer: AccountId) -> (r:
    Result<(), ContractError>)
    ensures
        final(grants).counter() == old(grants).counter(),
        !old(grants).grants().contains_key(grant_id) ==> r == Err::<(), ContractError>(ContractError::GrantNotFound),
        old(grants).grants().contains_key(grant_id) && old(grants).grants()[grant_id].owner != owner ==> r == Err::<
            (),
            ContractError,
        >(ContractError::Unauthorized),
        old(grants).grants().contains_key(grant_id) && old(grants).grants()[grant_id].owner == owner && !old(
            grants,
        ).grants()[grant_id].reviewers@.contains(reviewer) ==> r == Err::<(), ContractError>(ContractError::InvalidInput),
        r is Ok <==> old(grants).grants().contains_key(grant_id) && old(grants).grants()[grant_id].owner == owner && old(
            grants,
        ).grants()[grant_id].reviewers@.contains(reviewer),
        r is Err ==> final(grants).grants() == old(grants).grants(),
        r is Ok ==> {
            let g = old(grants).grants()[grant_id];
            &&& final(grants).grants() == old(grants).grants().insert(grant_id, Grant {
                reviewers: final(grants).grants()[grant_id].reviewers,
                ..g
            })
            &&& final(grants).grants()[grant_id].reviewers@ == crate::arbitration_pool::spec_without(g.reviewers@, reviewer)
        },
{
    let mut grant = match grants.take(grant_id) {
        Some(g) => g,
        None => {
            assert(grants.grants() =~= old(grants).grants());
            return Err(ContractError::GrantNotFound);
        },
    };
    let ghost g0 = grant;
    if grant.owner != owner {
        grants.set(grant_id, grant);
        assert(grants.grants() =~= old(grants).grants());
        return Err(ContractError::Unauthorized);
    }
    if !crate::escrow::contains_account(&grant.reviewers, reviewer) {
        grants.set(grant_id, grant);
        assert(grants.grants() =~= old(grants).grants());
        return Err(ContractError::InvalidInput);
    }
    grant.reviewers = crate::arbitration_pool::remove_account(&grant.reviewers, reviewer);
    grants.set(grant_id, grant);
    assert(grants.grants() =~= old(grants).grants().insert(grant_id, Grant { reviewers: grants.grants()[grant_id].reviewers, ..g0 }));
    Ok(())
}

/// Whether `owner` owns the grant `id`.
pub open spec fn spec_owned(grants: Map<u64, Grant>, owner: AccountId, id: u64) -> bool {
    grants.contains_key(id) && grants[id].owner == owner
}

/// How many of `ids` name a grant of `owner`.
pub open spec fn spec_count_owned(ids: Seq<u64>, grants: Map<u64, Grant>, owner: AccountId) -> int
    decreases ids.len(),
{
    if ids.len() == 0 {
        0
    } else {
        spec_count_owned(ids.drop_last(), grants, owner) + if spec_owned(grants, owner, ids.last()) { 1int } else { 0int }
    }
}

/// How many of `ids` remove that assessor from a grant of `owner`: the first mention of each
/// such grant that lists the assessor.
pub open spec fn spec_count_removals(ids: Seq<u64>, grants: Map<u64, Grant>, owner: AccountId, reviewer: AccountId) -> int
    decreases ids.len(),
{
    if ids.len() == 0 {
        0
    } else {
        let id = ids.last();
        spec_count_removals(ids.drop_last(), grants, owner, reviewer) + if spec_owned(grants, owner, id)
            && grants[id].reviewers@.contains(reviewer) && !ids.drop_last().contains(id) {
            1int
        } else {
            0int
        }
    }
}

/// Every grant keeps its fields but its assessors.
pub open spec fn spec_same_but_reviewers(a: Map<u64, Grant>, b: Map<u64, Grant>) -> bool {
    &&& a.dom() == b.dom()
    &&& forall|id: u64| #[trigger] b.contains_key(id) ==> b[id] == (Grant { reviewers: b[id].reviewers, ..a[id] })
}

/// Add a assessor to each of `grant_ids` (owner of each only) and tally the outcomes: an
/// item succeeds exactly when the owner owns the grant.
pub fn batch_add_reviewer(grants: &mut GrantBook, owner: AccountId, grant_ids: &Vec<u64>, reviewer: AccountId) -> (r: Result<
    BatchResult,
    ContractError,
>)
    ensures
        final(grants).counter() == old(grants).counter(),
        ({
            let n = grant_ids@.len() as int;
            let ok = spec_count_owned(grant_ids@, old(grants).grants(), owner);
            r == Ok::<BatchResult, ContractError>(BatchResult {
                successful: clamp_u32(ok) as u32,
                failed: clamp_u32(n - ok) as u32,
                total: n as u32,
            })
        }),
        spec_same_but_reviewers(old(grants).grants(), final(grants).grants()),
        forall|id: u64| #[trigger] final(grants).grants().contains_key(id) ==> final(grants).grants()[id].reviewers@ == if
            grant_ids@.contains(id) && spec_owned(old(grants).grants(), owner, id) && !old(grants).grants()[id].reviewers@.contains(
            reviewer) {
            old(grants).grants()[id].reviewers@.push(reviewer)
        } else {
            old(grants).grants()[id].reviewers@
        },
{
    let total = grant_ids.len() as u32;
    let mut successful: u32 = 0;
    let mut failed: u32 = 0;
    let mut i: usize = 0;
    let ghost g0 = old(grants).grants();
    while i < grant_ids.len()
        invariant
            i <= grant_ids@.len(),
            g0 == old(grants).grants(),
            grants.counter() == old(grants).counter(),
            successful == clamp_u32(spec_count_owned(grant_ids@.take(i as int), g0, owner)),
            failed == clamp_u32(i - spec_count_owned(grant_ids@.take(i as int), g0, owner)),
            0 <= spec_count_owned(grant_ids@.take(i as int), g0, owner) <= i,
            spec_same_but_reviewers(g0, grants.grants()),
            forall|id: u64| #[trigger] grants.grants().contains_key(id) ==> grants.grants()[id].reviewers@ == if
                grant_ids@.take(i as int).contains(id) && spec_owned(g0, owner, id) && !g0[id].reviewers@.contains(reviewer) {
                g0[id].reviewers@.push(reviewer)
            } else {
                g0[id].reviewers@
            },
        decreases grant_ids@.len() - i,
    {
        let gid = grant_ids[i];
        let ghost pre = grants.grants();
        proof {
            assert(grant_ids@.take(i + 1).drop_last() == grant_ids@.take(i as int));
            assert(grant_ids@.take(i + 1).last() == gid);
            assert(pre.contains_key(gid) == g0.contains_key(gid));
            if pre.contains_key(gid) {
                assert(pre[gid].owner == g0[gid].owner);
            }
        }
        match add_reviewer_to_grant(grants, owner, gid, reviewer) {
            Ok(()) => {
                successful = successful.saturating_add(1);
            },
            Err(_) => {
                failed = failed.saturating_add(1);
            },
        }
        proof {
            broadcast use vstd::seq_lib::lemma_seq_contains_after_push;
            assert(grant_ids@.take(i + 1) == grant_ids@.take(i as int).push(gid));
            assert forall|id: u64| #[trigger] grants.grants().contains_key(id) implies grants.grants()[id] == (Grant {
                reviewers: grants.grants()[id].reviewers, ..g0[id] }) by {
                assert(pre.contains_key(id));
            }
            assert(grants.grants().dom() =~= g0.dom());
            assert forall|id: u64| #[trigger] grants.grants().contains_key(id) implies grants.grants()[id].reviewers@ == if
                grant_ids@.take(i + 1).contains(id) && spec_owned(g0, owner, id) && !g0[id].reviewers@.contains(reviewer) {
                g0[id].reviewers@.push(reviewer)
            } else {
                g0[id].reviewers@
            } by {
                assert(pre.contains_key(id));
                if id == gid && spec_owned(g0, owner, id) && !g0[id].reviewers@.contains(reviewer) && grant_ids@.take(
                    i as int,
                ).contains(id) {
                    assert(pre[id].reviewers@ == g0[id].reviewers@.push(reviewer));
                    assert(pre[id].reviewers@[g0[id].reviewers@.len() as int] == reviewer);
                    assert(pre[id].reviewers@.contains(reviewer));
                }
            }
        }
        i += 1;
    }
    proof {
        assert(grant_ids@.take(grant_ids@.len() as int) == grant_ids@);
    }
    Ok(BatchResult { successful, failed, total })
}

/// Remove a assessor from each of `grant_ids` (owner of each only) and tally the outcomes:
/// an item succeeds exactly at the first mention of a grant of the owner that lists the
/// assessor.
pub fn batch_remove_reviewer(grants: &mut GrantBook, owner: AccountId, grant_ids: &Vec<u64>, reviewer: AccountId) -> (r: Result<
    BatchResult,
    ContractError,
>)
    ensures
        final(grants).counter() == old(grants).counter(),
        ({
            let n = grant_ids@.len() as int;
            let ok = spec_count_removals(grant_ids@, old(grants).grants(), owner, reviewer);
            r == Ok::<BatchResult, ContractError>(BatchResult {
                successful: clamp_u32(ok) as u32,
                failed: clamp_u32(n - ok) as u32,
                total: n as u32,
            })
        }),
        spec_same_but_reviewers(old(grants).grants(), final(grants).grants()),
        forall|id: u64| #[trigger] final(grants).grants().contains_key(id) ==> final(grants).grants()[id].reviewers@ == if
            grant_ids@.contains(id) && spec_owned(old(grants).grants(), owner, id) && old(grants).grants()[id].reviewers@.contains(
            reviewer) {
            crate::arbitration_pool::spec_without(old(grants).grants()[id].reviewers@, reviewer)
        } else {
            old(grants).grants()[id].reviewers@
        },
{
    let total = grant_ids.len() as u32;
    let mut successful: u32 = 0;
    let mut failed: u32 = 0;
    let mut i: usize = 0;
    let ghost g0 = old(grants).grants();
    while i < grant_ids.len()
        invariant
            i <= grant_ids@.len(),
            g0 == old(grants).grants(),
            grants.counter() == old(grants).counter(),
            successful == clamp_u32(spec_count_removals(grant_ids@.take(i as int), g0, owner, reviewer)),
            failed == clamp_u32(i - spec_count_removals(grant_ids@.take(i as int), g0, owner, reviewer)),
            0 <= spec_count_removals(grant_ids@.take(i as int), g0, owner, reviewer) <= i,
            spec_same_but_reviewers(g0, grants.grants()),
            forall|id: u64| #[trigger] grants.grants().contains_key(id) ==> grants.grants()[id].reviewers@ == if
                grant_ids@.take(i as int).contains(id) && spec_owned(g0, owner, id) && g0[id].reviewers@.contains(reviewer) {
                crate::arbitration_pool::spec_without(g0[id].reviewers@, reviewer)
            } else {
                g0[id].reviewers@
            },
        decreases grant_ids@.len() - i,
    {
        let gid = grant_ids[i];
        let ghost pre = grants.grants();
        proof {
            assert(grant_ids@.take(i + 1).drop_last() == grant_ids@.take(i as int));
            assert(grant_ids@.take(i + 1).last() == gid);
            assert(pre.contains_key(gid) == g0.contains_key(gid));
            if pre.contains_key(gid) {
                assert(pre[gid].owner == g0[gid].owner);
                crate::arbitration_pool::lemma_without(g0[gid].reviewers@, reviewer);
            }
        }
        match remove_reviewer_from_grant(grants, owner, gid, reviewer) {
            Ok(()) => {
                successful = successful.saturating_add(1);
            },
            Err(_) => {
                failed = failed.saturating_add(1);
            },
        }
        proof {
            broadcast use vstd::seq_lib::lemma_seq_contains_after_push;
            assert(grant_ids@.take(i + 1) == grant_ids@.take(i as int).push(gid));
            assert forall|id: u64| #[trigger] grants.grants().contains_key(id) implies grants.grants()[id] == (Grant {
                reviewers: grants.grants()[id].reviewers, ..g0[id] }) by {
                assert(pre.contains_key(id));
            }
            assert(grants.grants().dom() =~= g0.dom());
            assert forall|id: u64| #[trigger] grants.grants().contains_key(id) implies grants.grants()[id].reviewers@ == if
                grant_ids@.take(i + 1).contains(id) && spec_owned(g0, owner, id) && g0[id].reviewers@.contains(reviewer) {
                crate::arbitration_pool::spec_without(g0[id].reviewers@, reviewer)
            } else {
                g0[id].reviewers@
            } by {
                assert(pre.contains_key(id));
            }
        }
        i += 1;
    }
    proof {
        assert(grant_ids@.take(grant_ids@.len() as int) == grant_ids@);
    }
    Ok(BatchResult { successful, failed, total })
}

/// Saturating total of the escrow balances of `gs` in `token`.
pub open spec fn spec_escrow_total(gs: Seq<Grant>, token: AccountId) -> int
    decreases gs.len(),
{
    if gs.len() == 0 {
        0
    } else {
        let p = spec_escrow_total(gs.drop_last(), token);
        if gs.last().token == token { clamp_i128(p + gs.last().escrow_balance) } else { p }
    }
}

/// Total escrow balance, in `token`, of the grants indexed under `owner` (saturating).
pub fn total_escrow_balance(index: &GrantIndex, grants: &GrantBook, owner: AccountId, token: AccountId) -> (r: i128)
    ensures
        r == spec_escrow_total(spec_found(index.owner_list(owner), grants.grants()), token),
{
    let ids = index.by_owner_lists_get(owner);
    let mut total: i128 = 0;
    let mut i: usize = 0;
    while i < ids.len()
        invariant
            i <= ids@.len(),
            total == spec_escrow_total(spec_found(ids@.take(i as int), grants.grants()), token),
        decreases ids@.len() - i,
    {
        let gid = ids[i];
        let ghost prev = spec_found(ids@.take(i as int), grants.grants());
        proof {
            assert(ids@.take(i + 1).drop_last() == ids@.take(i as int));
        }
        match grants.get(gid) {
            Some(g) => {
                proof {
                    assert(spec_found(ids@.take(i + 1), grants.grants()).drop_last() == prev);
                }
                if g.token == token {
                    total = crate::arith::sat_add_i128(total, g.escrow_balance);
                }
            },
            None => {},
        }
        i += 1;
    }
    proof {
        assert(ids@.take(ids@.len() as int) == ids@);
    }
    total
}

/// An owner's indexed grant ids with their aggregates.
pub fn get_portfolio(index: &GrantIndex, grants: &GrantBook, owner: AccountId) -> (r: GrantPortfolio)
    requires
        spec_rates_fit(spec_found(index.owner_list(owner), grants.grants())),
    ensures
        r.owner == owner,
        r.grant_ids@ == index.owner_list(owner),
        r.stats == spec_portfolio_stats(owner, spec_found(index.owner_list(owner), grants.grants())),
{
    let stats = get_portfolio_stats(index, grants, owner);
    let grant_ids = index.by_owner_lists_get(owner);
    GrantPortfolio { owner, grant_ids, stats }
}


/// The (id, timestamp) pairs of the grants among `ids` that exist, in order.
pub open spec fn spec_stamped(ids: Seq<u64>, grants: Map<u64, Grant>) -> Seq<(u64, u64)>
    decreases ids.len(),
{
    if ids.len() == 0 {
        Seq::empty()
    } else {
        let prev = spec_stamped(ids.drop_last(), grants);
        if grants.contains_key(ids.last()) { prev.push((ids.last(), grants[ids.last()].timestamp)) } else { prev }
    }
}

/// The pairs are in non-increasing order of timestamp.
pub open spec fn sorted_by_time_desc(s: Seq<(u64, u64)>) -> bool {
    forall|a: int, b: int| 0 <= a < b < s.len() ==> (#[trigger] s[a]).1 >= (#[trigger] s[b]).1
}

/// Sort (id, timestamp) pairs by timestamp, latest first (bubble sort; equal timestamps
/// keep their order).
pub fn sort_by_time_desc(v: &mut Vec<(u64, u64)>)
    ensures
        final(v)@.to_multiset() == old(v)@.to_multiset(),
        final(v)@.len() == old(v)@.len(),
        sorted_by_time_desc(final(v)@),
{
    let n = v.len();
    let mut i: usize = 0;
    while i < n
        invariant
            n == v@.len(),
            i <= n,
            v@.to_multiset() == old(v)@.to_multiset(),
            forall|a: int, b: int| n - i <= a < b < n ==> (#[trigger] v@[a]).1 >= (#[trigger] v@[b]).1,
            forall|a: int, b: int| 0 <= a < n - i <= b < n ==> (#[trigger] v@[a]).1 >= (#[trigger] v@[b]).1,
        decreases n - i,
    {
        let limit = n - 1 - i;
        let mut j: usize = 0;
        while j < limit
            invariant
                n == v@.len(),
                i < n,
                limit == n - 1 - i,
                j <= limit,
                v@.to_multiset() == old(v)@.to_multiset(),
                forall|a: int, b: int| n - i <= a < b < n ==> (#[trigger] v@[a]).1 >= (#[trigger] v@[b]).1,
                forall|a: int, b: int| 0 <= a < n - i <= b < n ==> (#[trigger] v@[a]).1 >= (#[trigger] v@[b]).1,
                forall|a: int| 0 <= a <= j ==> (#[trigger] v@[a]).1 >= v@[j as int].1,
            decreases limit - j,
        {
            let x = v[j];
            let y = v[j + 1];
            if x.1 < y.1 {
                let ghost before = v@;
                v.set(j, y);
                v.set(j + 1, x);
                proof {
                    assert(v@ == before.update(j as int, y).update(j + 1, x));
                    assert(v@.to_multiset() == before.to_multiset()) by {
                        lemma_swap_multiset(before, j as int, j + 1);
                        assert(before.update(j as int, before[j + 1]).update(j + 1, before[j as int]) == v@);
                    }
                }
            }
            j += 1;
        }
        i += 1;
    }
}

/// Swapping two entries keeps the multiset of a sequence.
proof fn lemma_swap_multiset(s: Seq<(u64, u64)>, a: int, b: int)
    requires
        0 <= a < s.len(),
        0 <= b < s.len(),
    ensures
        s.update(a, s[b]).update(b, s[a]).to_multiset() == s.to_multiset(),
{
    broadcast use vstd::seq_lib::group_to_multiset_ensures;
    let t = s.update(a, s[b]);
    assert(t.to_multiset() == s.to_multiset().remove(s[a]).insert(s[b]));
    let u = t.update(b, s[a]);
    assert(u.to_multiset() == t.to_multiset().remove(t[b]).insert(s[a]));
    if a == b {
        assert(u == s);
    } else {
        assert(t[b] == s[b]);
    }
}

/// The ids of at most `n` of the owner's grants, latest timestamp first.
pub fn recent_grants(index: &GrantIndex, grants: &GrantBook, owner: AccountId, n: u32) -> (r: Vec<u64>)
    ensures
        ({
            let all = spec_stamped(index.owner_list(owner), grants.grants());
            let k = if n < all.len() { n as int } else { all.len() as int };
            exists|sorted: Seq<(u64, u64)>| #![auto]
                sorted.to_multiset() == all.to_multiset() && sorted.len() == all.len() && sorted_by_time_desc(sorted)
                    && r@ == sorted.take(k).map_values(|p: (u64, u64)| p.0)
        }),
{
    let ids = index.by_owner_lists_get(owner);
    let mut stamped: Vec<(u64, u64)> = Vec::new();
    let mut i: usize = 0;
    while i < ids.len()
        invariant
            i <= ids@.len(),
            stamped@ == spec_stamped(ids@.take(i as int), grants.grants()),
        decreases ids@.len() - i,
    {
        let gid = ids[i];
        proof {
            assert(ids@.take(i + 1).drop_last() == ids@.take(i as int));
        }
        match grants.get(gid) {
            Some(g) => {
                stamped.push((gid, g.timestamp));
            },
            None => {},
        }
        i += 1;
    }
    proof {
        assert(ids@.take(ids@.len() as int) == ids@);
    }
    let ghost all = stamped@;
    sort_by_time_desc(&mut stamped);
    let limit: usize = if (n as usize) < stamped.len() { n as usize } else { stamped.len() };
    let mut result: Vec<u64> = Vec::new();
    let mut j: usize = 0;
    while j < limit
        invariant
            limit <= stamped@.len(),
            j <= limit,
            result@ == stamped@.take(j as int).map_values(|p: (u64, u64)| p.0),
        decreases limit - j,
    {
        result.push(stamped[j].0);
        proof {
            assert(stamped@.take(j + 1) == stamped@.take(j as int).push(stamped@[j as int]));
            assert(stamped@.take(j + 1).map_values(|p: (u64, u64)| p.0) == stamped@.take(j as int).map_values(
                |p: (u64, u64)| p.0,
            ).push(stamped@[j as int].0));
        }
        j += 1;
    }
    proof {
        let k = if n < all.len() { n as int } else { all.len() as int };
        assert(limit == k);
        assert(stamped@.to_multiset() == all.to_multiset() && stamped@.len() == all.len() && sorted_by_time_desc(stamped@)
            && result@ == stamped@.take(k).map_values(|p: (u64, u64)| p.0));
    }
    result
}

} // verus!
