use vstd::prelude::*;

use std::collections::HashMap;

use crate::contract::StellarGrantsContract;
use crate::errors::ContractError;
use crate::milestones::MilestoneBook;
use crate::types::{AccountId, MilestoneState};

verus! {

/// Milestone `milestone_idx` may be submitted only once every milestone in `depends_on` is
/// approved or paid.
#[derive(Clone, Debug)]
pub struct MilestoneDependency {
    pub milestone_idx: u32,
    pub depends_on: Vec<u32>,
}

/// A dependency as plain values.
pub open spec fn dep_view(d: MilestoneDependency) -> (u32, Seq<u32>) {
    (d.milestone_idx, d.depends_on@)
}

/// Dependencies as plain values.
pub open spec fn dep_views(deps: Seq<MilestoneDependency>) -> Seq<(u32, Seq<u32>)> {
    deps.map_values(|d: MilestoneDependency| dep_view(d))
}

/// Whether `a` comes before `b` in `ord`.
pub open spec fn spec_before(ord: Seq<u32>, a: u32, b: u32) -> bool {
    exists|p: int, q: int| 0 <= p < q < ord.len() && #[trigger] ord[p] == a && #[trigger] ord[q] == b
}

/// `ord` lists the milestones `0..n` once each, every milestone after all those it depends
/// on.
pub open spec fn spec_is_topo_order(dv: Seq<(u32, Seq<u32>)>, n: u32, ord: Seq<u32>) -> bool {
    &&& ord.len() == n
    &&& ord.no_duplicates()
    &&& forall|i: int| 0 <= i < ord.len() ==> #[trigger] ord[i] < n
    &&& forall|x: u32| x < n ==> #[trigger] ord.contains(x)
    &&& forall|j: int, t: int|
        0 <= j < dv.len() && 0 <= t < dv[j].1.len() ==> #[trigger] spec_before(ord, dv[j].1[t], dv[j].0)
}

/// The milestones `0..n` can be put in an order that respects every dependency.
pub open spec fn spec_has_topo_order(dv: Seq<(u32, Seq<u32>)>, n: u32) -> bool {
    exists|ord: Seq<u32>| spec_is_topo_order(dv, n, ord)
}

/// No dependency lists the same milestone twice.
pub open spec fn spec_entries_distinct(dv: Seq<(u32, Seq<u32>)>) -> bool {
    forall|j: int| 0 <= j < dv.len() ==> (#[trigger] dv[j]).1.no_duplicates()
}

/// Total length of the dependency lists of milestone `x` among the first `k` entries.
pub open spec fn spec_len_sum(dv: Seq<(u32, Seq<u32>)>, x: u32, k: int) -> int
    decreases k,
{
    if k <= 0 {
        0
    } else {
        spec_len_sum(dv, x, k - 1) + if dv[k - 1].0 == x { dv[k - 1].1.len() as int } else { 0 }
    }
}

/// Every milestone's in-degree fits in a `u32`.
pub open spec fn spec_degrees_fit(dv: Seq<(u32, Seq<u32>)>) -> bool {
    forall|x: u32| #[trigger] spec_len_sum(dv, x, dv.len() as int) <= u32::MAX
}

// ---- counting, for the proof of Kahn's algorithm ----

/// Number of the first `k` entries of `s` that are in `p`.
pub open spec fn cnt_in(s: Seq<u32>, p: Set<u32>, k: int) -> int
    decreases k,
{
    if k <= 0 {
        0
    } else {
        cnt_in(s, p, k - 1) + if p.contains(s[k - 1]) { 1int } else { 0int }
    }
}

/// Number of entries of `s` outside `p`.
pub open spec fn rem(s: Seq<u32>, p: Set<u32>) -> int {
    s.len() - cnt_in(s, p, s.len() as int)
}

/// The remaining in-degree of `x` over the first `k` entries, where the entries before `jj`
/// also count `node` as done.
pub open spec fn indeg(dv: Seq<(u32, Seq<u32>)>, x: u32, p: Set<u32>, node: u32, jj: int, k: int) -> int
    decreases k,
{
    if k <= 0 {
        0
    } else {
        indeg(dv, x, p, node, jj, k - 1) + if dv[k - 1].0 == x {
            rem(dv[k - 1].1, if k - 1 < jj { p.insert(node) } else { p })
        } else {
            0
        }
    }
}

proof fn lemma_cnt_bounds(s: Seq<u32>, p: Set<u32>, k: int)
    requires
        0 <= k,
    ensures
        0 <= cnt_in(s, p, k) <= k,
    decreases k,
{
    if k > 0 {
        lemma_cnt_bounds(s, p, k - 1);
    }
}

proof fn lemma_cnt_full(s: Seq<u32>, p: Set<u32>, k: int)
    requires
        0 <= k <= s.len(),
    ensures
        cnt_in(s, p, k) == k <==> forall|i: int| 0 <= i < k ==> p.contains(#[trigger] s[i]),
    decreases k,
{
    if k > 0 {
        lemma_cnt_full(s, p, k - 1);
        lemma_cnt_bounds(s, p, k - 1);
    }
}

proof fn lemma_cnt_mono(s: Seq<u32>, p: Set<u32>, p2: Set<u32>, k: int)
    requires
        0 <= k,
        p.subset_of(p2),
    ensures
        cnt_in(s, p, k) <= cnt_in(s, p2, k),
    decreases k,
{
    if k > 0 {
        lemma_cnt_mono(s, p, p2, k - 1);
    }
}

proof fn lemma_cnt_empty(s: Seq<u32>, k: int)
    requires
        0 <= k,
    ensures
        cnt_in(s, Set::empty(), k) == 0,
    decreases k,
{
    if k > 0 {
        lemma_cnt_empty(s, k - 1);
    }
}

proof fn lemma_cnt_insert(s: Seq<u32>, p: Set<u32>, node: u32, k: int)
    requires
        0 <= k <= s.len(),
        s.no_duplicates(),
        !p.contains(node),
    ensures
        cnt_in(s, p.insert(node), k) == cnt_in(s, p, k) + if s.subrange(0, k).contains(node) { 1int } else { 0int },
    decreases k,
{
    if k > 0 {
        lemma_cnt_insert(s, p, node, k - 1);
        let a = s.subrange(0, k - 1);
        let b = s.subrange(0, k);
        assert(b =~= a.push(s[k - 1]));
        if s[k - 1] == node {
            assert(b[k - 1] == node);
            assert(b.contains(node));
            assert(!a.contains(node)) by {
                if a.contains(node) {
                    let i = choose|i: int| 0 <= i < a.len() && a[i] == node;
                    assert(s[i] == s[k - 1]);
                }
            }
        } else {
            assert(b.contains(node) == a.contains(node)) by {
                if b.contains(node) {
                    let i = choose|i: int| 0 <= i < b.len() && b[i] == node;
                    assert(i < k - 1);
                    assert(a[i] == node);
                }
            }
        }
    }
}

proof fn lemma_rem_nonneg(s: Seq<u32>, p: Set<u32>)
    ensures
        0 <= rem(s, p) <= s.len(),
{
    lemma_cnt_bounds(s, p, s.len() as int);
}

proof fn lemma_indeg_nonneg(dv: Seq<(u32, Seq<u32>)>, x: u32, p: Set<u32>, node: u32, jj: int, k: int)
    requires
        0 <= k,
    ensures
        indeg(dv, x, p, node, jj, k) >= 0,
    decreases k,
{
    if k > 0 {
        lemma_indeg_nonneg(dv, x, p, node, jj, k - 1);
        lemma_rem_nonneg(dv[k - 1].1, if k - 1 < jj { p.insert(node) } else { p });
    }
}

/// With no entry counted as having `node` done, the in-degree does not depend on `node`.
proof fn lemma_indeg_plain(dv: Seq<(u32, Seq<u32>)>, x: u32, p: Set<u32>, node: u32, node2: u32, k: int)
    requires
        0 <= k,
    ensures
        indeg(dv, x, p, node, 0, k) == indeg(dv, x, p, node2, 0, k),
    decreases k,
{
    if k > 0 {
        lemma_indeg_plain(dv, x, p, node, node2, k - 1);
    }
}

/// Once every entry counts `node` as done, the in-degree is the plain one over `p + node`.
proof fn lemma_indeg_all(dv: Seq<(u32, Seq<u32>)>, x: u32, p: Set<u32>, node: u32, node2: u32, jj: int, k: int)
    requires
        0 <= k <= jj,
    ensures
        indeg(dv, x, p, node, jj, k) == indeg(dv, x, p.insert(node), node2, 0, k),
    decreases k,
{
    if k > 0 {
        lemma_indeg_all(dv, x, p, node, node2, jj, k - 1);
    }
}

/// Counting `node` as done in one more entry lowers the in-degree by that entry's share.
proof fn lemma_indeg_step(dv: Seq<(u32, Seq<u32>)>, x: u32, p: Set<u32>, node: u32, jj: int, k: int)
    requires
        0 <= jj,
        0 <= k,
    ensures
        indeg(dv, x, p, node, jj + 1, k) == indeg(dv, x, p, node, jj, k) - if jj < k && dv[jj].0 == x {
            rem(dv[jj].1, p) - rem(dv[jj].1, p.insert(node))
        } else {
            0
        },
    decreases k,
{
    if k > 0 {
        lemma_indeg_step(dv, x, p, node, jj, k - 1);
    }
}

/// The in-degree counting `node` done in the first `jj` entries is at least the one counting
/// it done everywhere.
proof fn lemma_indeg_le_mid(dv: Seq<(u32, Seq<u32>)>, x: u32, p: Set<u32>, node: u32, jj: int, k: int)
    requires
        0 <= k,
    ensures
        indeg(dv, x, p.insert(node), node, 0, k) <= indeg(dv, x, p, node, jj, k),
    decreases k,
{
    if k > 0 {
        lemma_indeg_le_mid(dv, x, p, node, jj, k - 1);
        lemma_cnt_mono(dv[k - 1].1, p, p.insert(node), dv[k - 1].1.len() as int);
    }
}

/// A zero in-degree means every dependency of `x` among the first `k` entries is in `p`.
proof fn lemma_indeg_zero(dv: Seq<(u32, Seq<u32>)>, x: u32, p: Set<u32>, node: u32, k: int)
    requires
        0 <= k <= dv.len(),
        indeg(dv, x, p, node, 0, k) == 0,
    ensures
        forall|j: int, t: int|
            0 <= j < k && dv[j].0 == x && 0 <= t < dv[j].1.len() ==> p.contains(#[trigger] dv[j].1[t]),
    decreases k,
{
    if k > 0 {
        lemma_indeg_nonneg(dv, x, p, node, 0, k - 1);
        lemma_rem_nonneg(dv[k - 1].1, p);
        lemma_indeg_zero(dv, x, p, node, k - 1);
        if dv[k - 1].0 == x {
            lemma_cnt_full(dv[k - 1].1, p, dv[k - 1].1.len() as int);
        }
    }
}

/// Every dependency of `x` in `p` means a zero in-degree.
proof fn lemma_indeg_zero_back(dv: Seq<(u32, Seq<u32>)>, x: u32, p: Set<u32>, node: u32, k: int)
    requires
        0 <= k <= dv.len(),
        forall|j: int, t: int|
            0 <= j < k && dv[j].0 == x && 0 <= t < dv[j].1.len() ==> p.contains(#[trigger] dv[j].1[t]),
    ensures
        indeg(dv, x, p, node, 0, k) == 0,
    decreases k,
{
    if k > 0 {
        lemma_indeg_zero_back(dv, x, p, node, k - 1);
        if dv[k - 1].0 == x {
            assert forall|i: int| 0 <= i < dv[k - 1].1.len() implies p.contains(#[trigger] dv[k - 1].1[i]) by {
                assert(p.contains(dv[k - 1].1[i]));
            }
            lemma_cnt_full(dv[k - 1].1, p, dv[k - 1].1.len() as int);
        }
    }
}

/// An entry of `x` at or after `jj` that still waits on a milestone outside `p` keeps the
/// in-degree positive.
proof fn lemma_indeg_pos(dv: Seq<(u32, Seq<u32>)>, x: u32, p: Set<u32>, node: u32, jj: int, j: int, t: int, k: int)
    requires
        0 <= jj <= j < k <= dv.len(),
        dv[j].0 == x,
        0 <= t < dv[j].1.len(),
        !p.contains(dv[j].1[t]),
    ensures
        indeg(dv, x, p, node, jj, k) >= 1,
    decreases k,
{
    lemma_indeg_nonneg(dv, x, p, node, jj, k - 1);
    if j == k - 1 {
        lemma_cnt_full(dv[j].1, p, dv[j].1.len() as int);
        lemma_cnt_bounds(dv[j].1, p, dv[j].1.len() as int);
    } else {
        lemma_indeg_pos(dv, x, p, node, jj, j, t, k - 1);
        lemma_rem_nonneg(dv[k - 1].1, if k - 1 < jj { p.insert(node) } else { p });
    }
}

proof fn lemma_len_sum_is_indeg(dv: Seq<(u32, Seq<u32>)>, x: u32, node: u32, k: int)
    requires
        0 <= k,
    ensures
        spec_len_sum(dv, x, k) == indeg(dv, x, Set::empty(), node, 0, k),
    decreases k,
{
    if k > 0 {
        lemma_len_sum_is_indeg(dv, x, node, k - 1);
        lemma_cnt_empty(dv[k - 1].1, dv[k - 1].1.len() as int);
    }
}

proof fn lemma_len_sum_mono(dv: Seq<(u32, Seq<u32>)>, x: u32, k: int, k2: int)
    requires
        0 <= k <= k2,
    ensures
        spec_len_sum(dv, x, k) <= spec_len_sum(dv, x, k2),
    decreases k2,
{
    if k < k2 {
        lemma_len_sum_mono(dv, x, k, k2 - 1);
    }
}

/// The values below `n` number `n`.
proof fn lemma_below_len(n: u32)
    ensures
        Set::new(|x: u32| x < n).finite(),
        Set::new(|x: u32| x < n).len() == n,
    decreases n,
{
    if n == 0 {
        assert(Set::new(|x: u32| x < n) =~= Set::<u32>::empty());
    } else {
        lemma_below_len((n - 1) as u32);
        assert(Set::new(|x: u32| x < n) =~= Set::new(|x: u32| x < (n - 1) as u32).insert((n - 1) as u32));
    }
}

/// A duplicate-free list of values below `n` holds all of them exactly when it has `n` entries.
proof fn lemma_full_iff_len(q: Seq<u32>, n: u32)
    requires
        q.no_duplicates(),
        forall|i: int| 0 <= i < q.len() ==> #[trigger] q[i] < n,
    ensures
        q.len() <= n,
        (forall|x: u32| x < n ==> #[trigger] q.contains(x)) <==> q.len() == n,
{
    let below = Set::new(|x: u32| x < n);
    lemma_below_len(n);
    q.unique_seq_to_set();
    assert(q.to_set().subset_of(below));
    vstd::set_lib::lemma_len_subset(q.to_set(), below);
    if forall|x: u32| x < n ==> #[trigger] q.contains(x) {
        assert(below.subset_of(q.to_set()));
        vstd::set_lib::lemma_len_subset(below, q.to_set());
    }
    if q.len() == n {
        assert forall|x: u32| x < n implies #[trigger] q.contains(x) by {
            if !q.contains(x) {
                assert(q.to_set().subset_of(below.remove(x)));
                vstd::set_lib::lemma_len_subset(q.to_set(), below.remove(x));
            }
        }
    }
}

/// The milestones among the first `qi` of `q`.
pub open spec fn done_set(q: Seq<u32>, qi: int) -> Set<u32> {
    Set::new(|x: u32| exists|i: int| 0 <= i < qi && q[i] == x)
}

/// `y` is among the first `i` entries of `q`.
pub open spec fn seen_before(q: Seq<u32>, i: int, y: u32) -> bool {
    exists|p: int| 0 <= p < i && q[p] == y
}

/// Every milestone listed in `q` comes after all the milestones it depends on.
pub open spec fn spec_prefix_ordered(dv: Seq<(u32, Seq<u32>)>, q: Seq<u32>) -> bool {
    forall|i: int, j: int, t: int|
        0 <= i < q.len() && 0 <= j < dv.len() && dv[j].0 == q[i] && 0 <= t < dv[j].1.len() ==> #[trigger] seen_before(
            q,
            i,
            dv[j].1[t],
        )
}

/// In a topological order every milestone comes after all those it depends on; so if every
/// milestone whose dependencies are done is listed in `q`, all of them are.
proof fn lemma_all_processed(dv: Seq<(u32, Seq<u32>)>, n: u32, ord: Seq<u32>, q: Seq<u32>, i: int)
    requires
        spec_is_topo_order(dv, n, ord),
        0 <= i <= ord.len(),
        forall|y: u32|
            y < n ==> (#[trigger] q.contains(y) <== indeg(dv, y, done_set(q, q.len() as int), 0, 0, dv.len() as int)
                == 0),
    ensures
        forall|k: int| 0 <= k < i ==> #[trigger] q.contains(ord[k]),
    decreases i,
{
    if i > 0 {
        lemma_all_processed(dv, n, ord, q, i - 1);
        let x = ord[i - 1];
        let pset = done_set(q, q.len() as int);
        assert forall|j: int, t: int| 0 <= j < dv.len() && dv[j].0 == x && 0 <= t < dv[j].1.len() implies pset.contains(
            #[trigger] dv[j].1[t],
        ) by {
            assert(spec_before(ord, dv[j].1[t], dv[j].0));
            let (p, qq) = choose|p: int, qq: int|
                0 <= p < qq < ord.len() && #[trigger] ord[p] == dv[j].1[t] && #[trigger] ord[qq] == dv[j].0;
            assert(qq == i - 1) by {
                if qq != i - 1 {
                    assert(ord[qq] == ord[i - 1]);
                }
            }
            assert(q.contains(ord[p]));
            let w = choose|w: int| 0 <= w < q.len() && q[w] == ord[p];
            assert(pset.contains(ord[p]));
        }
        lemma_indeg_zero_back(dv, x, pset, 0, dv.len() as int);
        assert(x < n);
    }
}

fn contains_u32(v: &Vec<u32>, x: u32) -> (r: bool)
    ensures
        r == v@.contains(x),
{
    let mut i: usize = 0;
    while i < v.len()
        invariant
            i <= v.len(),
            forall|j: int| 0 <= j < i ==> v@[j] != x,
        decreases v.len() - i,
    {
        if v[i] == x {
            return true;
        }
        i += 1;
    }
    false
}

/// Kahn's algorithm: order the milestones `0..total` so that each comes after those it
/// depends on, taking milestones in the order their last dependency is met.
fn kahn(deps: &Vec<MilestoneDependency>, total: u32) -> (r: Result<Vec<u32>, ContractError>)
    requires
        forall|j: int| 0 <= j < deps.len() ==> (#[trigger] deps@[j]).milestone_idx < total,
        spec_degrees_fit(dep_views(deps@)),
        spec_entries_distinct(dep_views(deps@)),
    ensures
        r is Ok ==> spec_is_topo_order(dep_views(deps@), total, r->Ok_0@),
        r is Err ==> r == Err::<Vec<u32>, ContractError>(ContractError::DagCycleDetected) && !spec_has_topo_order(
            dep_views(deps@),
            total,
        ),
{
    let n = total;
    let m = deps.len();
    let ghost dv = dep_views(deps@);
    let mut in_degree: Vec<u32> = Vec::new();
    let mut i: u32 = 0;
    while i < n
        invariant
            i <= n,
            in_degree.len() == i,
            forall|k: int| 0 <= k < i ==> in_degree@[k] == 0,
        decreases n - i,
    {
        in_degree.push(0);
        i += 1;
    }
    let mut j: usize = 0;
    while j < m
        invariant
            m == deps.len(),
            dv == dep_views(deps@),
            j <= m,
            in_degree.len() == n,
            n == total,
            forall|jj: int| 0 <= jj < deps.len() ==> (#[trigger] deps@[jj]).milestone_idx < total,
            spec_degrees_fit(dv),
            forall|y: u32| y < n ==> #[trigger] in_degree@[y as int] == spec_len_sum(dv, y, j as int),
        decreases m - j,
    {
        let idx = deps[j].milestone_idx;
        let len = deps[j].depends_on.len();
        proof {
            assert(deps@[j as int].milestone_idx < total);
            lemma_len_sum_mono(dv, idx, j as int + 1, m as int);
            assert(dv[j as int].0 == idx);
            assert(dv[j as int].1.len() == len);
            assert(spec_len_sum(dv, idx, dv.len() as int) <= u32::MAX);
            assert(in_degree@[idx as int] == spec_len_sum(dv, idx, j as int));
        }
        let cur = in_degree[idx as usize];
        in_degree.set(idx as usize, cur + len as u32);
        proof {
            assert forall|y: u32| y < n implies #[trigger] in_degree@[y as int] == spec_len_sum(dv, y, j as int + 1) by {
                if y != idx {
                    assert(in_degree@[y as int] == spec_len_sum(dv, y, j as int));
                }
            }
        }
        j += 1;
    }
    proof {
        assert forall|y: u32| y < n implies #[trigger] in_degree@[y as int] == indeg(dv, y, Set::empty(), 0, 0, m as int) by {
            lemma_len_sum_is_indeg(dv, y, 0, m as int);
        }
    }
    let mut queue: Vec<u32> = Vec::new();
    let mut x: u32 = 0;
    while x < n
        invariant
            m == deps.len(),
            dv == dep_views(deps@),
            x <= n,
            in_degree.len() == n,
            n == total,
            forall|y: u32| y < n ==> #[trigger] in_degree@[y as int] == indeg(dv, y, Set::empty(), 0, 0, m as int),
            forall|k: int| 0 <= k < queue.len() ==> #[trigger] queue@[k] < x,
            queue@.no_duplicates(),
            forall|y: u32| y < n ==> (#[trigger] queue@.contains(y) <==> (y < x && in_degree@[y as int] == 0)),
            spec_prefix_ordered(dv, queue@),
        decreases n - x,
    {
        if in_degree[x as usize] == 0 {
            proof {
                lemma_indeg_zero(dv, x, Set::empty(), 0, m as int);
            }
            let ghost q0 = queue@;
            assert(spec_prefix_ordered(dv, q0));
            queue.push(x);
            proof {
                assert forall|y: u32| y < n implies (#[trigger] queue@.contains(y) <==> (y < x + 1 && in_degree@[y as int]
                    == 0)) by {
                    if y == x {
                        assert(queue@[q0.len() as int] == x);
                    }
                    if queue@.contains(y) && y != x {
                        let w = choose|w: int| 0 <= w < queue@.len() && queue@[w] == y;
                        assert(w < q0.len());
                        assert(q0[w] == y);
                    }
                    if q0.contains(y) {
                        let w = choose|w: int| 0 <= w < q0.len() && q0[w] == y;
                        assert(queue@[w] == y);
                    }
                }
                assert forall|i2: int, j2: int, t2: int|
                    0 <= i2 < queue@.len() && 0 <= j2 < dv.len() && dv[j2].0 == queue@[i2] && 0 <= t2 < dv[j2].1.len()
                        implies #[trigger] seen_before(queue@, i2, dv[j2].1[t2]) by {
                    if i2 < q0.len() {
                        assert(q0[i2] == queue@[i2]);
                        assert(seen_before(q0, i2, dv[j2].1[t2]));
                        let p = choose|p: int| 0 <= p < i2 && q0[p] == dv[j2].1[t2];
                        assert(queue@[p] == q0[p]);
                    } else {
                        assert(Set::<u32>::empty().contains(dv[j2].1[t2]));
                    }
                }
            }
        } else {
            proof {
                assert forall|y: u32| y < n implies (#[trigger] queue@.contains(y) <==> (y < x + 1 && in_degree@[y as int]
                    == 0)) by {
                    if queue@.contains(y) {
                        let w = choose|w: int| 0 <= w < queue@.len() && queue@[w] == y;
                        assert(queue@[w] < x);
                    }
                }
            }
        }
        x += 1;
    }
    proof {
        assert forall|y: u32| y < n implies #[trigger] in_degree@[y as int] == indeg(dv, y, done_set(queue@, 0), 0, 0, m as int) by {
            assert(done_set(queue@, 0) =~= Set::<u32>::empty());
        }
    }
    let mut qi: usize = 0;
    while qi < queue.len()
        invariant
            m == deps.len(),
            dv == dep_views(deps@),
            in_degree.len() == n,
            n == total,
            spec_entries_distinct(dv),
            forall|jj: int| 0 <= jj < deps.len() ==> (#[trigger] deps@[jj]).milestone_idx < total,
            queue@.no_duplicates(),
            forall|k: int| 0 <= k < queue.len() ==> #[trigger] queue@[k] < n,
            qi <= queue.len(),
            forall|y: u32| y < n ==> #[trigger] in_degree@[y as int] == indeg(dv, y, done_set(queue@, qi as int), 0, 0, m as int),
            forall|y: u32| y < n ==> (#[trigger] queue@.contains(y) <==> in_degree@[y as int] == 0),
            spec_prefix_ordered(dv, queue@),
        decreases n as int - qi as int,
    {
        proof {
            lemma_full_iff_len(queue@, n);
        }
        let node = queue[qi];
        let ghost pset = done_set(queue@, qi as int);
        proof {
            assert(!pset.contains(node)) by {
                if pset.contains(node) {
                    let w = choose|w: int| 0 <= w < qi && queue@[w] == node;
                    assert(queue@[w] == queue@[qi as int]);
                }
            }
            assert forall|y: u32| y < n implies #[trigger] in_degree@[y as int] == indeg(dv, y, pset, node, 0, m as int) by {
                lemma_indeg_plain(dv, y, pset, 0, node, m as int);
            }
        }
        let mut jj: usize = 0;
        while jj < m
            invariant
                m == deps.len(),
                dv == dep_views(deps@),
                in_degree.len() == n,
                n == total,
            n == total,
                spec_entries_distinct(dv),
                forall|k: int| 0 <= k < deps.len() ==> (#[trigger] deps@[k]).milestone_idx < total,
                queue@.no_duplicates(),
                forall|k: int| 0 <= k < queue.len() ==> #[trigger] queue@[k] < n,
                qi < queue.len(),
                node == queue@[qi as int],
                pset == done_set(queue@, qi as int),
                !pset.contains(node),
                jj <= m,
                forall|y: u32| y < n ==> #[trigger] in_degree@[y as int] == indeg(dv, y, pset, node, jj as int, m as int),
                forall|y: u32| y < n ==> (#[trigger] queue@.contains(y) <==> in_degree@[y as int] == 0),
                spec_prefix_ordered(dv, queue@),
            decreases m - jj,
        {
            let ghost before = in_degree@;
            let ghost e = dv[jj as int];
            proof {
                assert(e.1 == deps@[jj as int].depends_on@);
                lemma_cnt_insert(e.1, pset, node, e.1.len() as int);
                assert(e.1.subrange(0, e.1.len() as int) =~= e.1);
                assert forall|y: u32| y < n && y != e.0 implies #[trigger] indeg(dv, y, pset, node, jj as int + 1, m as int)
                    == indeg(dv, y, pset, node, jj as int, m as int) by {
                    lemma_indeg_step(dv, y, pset, node, jj as int, m as int);
                }
                lemma_indeg_step(dv, e.0, pset, node, jj as int, m as int);
            }
            if contains_u32(&deps[jj].depends_on, node) {
                let t = deps[jj].milestone_idx;
                proof {
                    assert(deps@[jj as int].milestone_idx < total);
                    let w = choose|w: int| 0 <= w < e.1.len() && e.1[w] == node;
                    lemma_indeg_pos(dv, t, pset, node, jj as int, jj as int, w, m as int);
                }
                let d = in_degree[t as usize];
                let new_d = d - 1;
                in_degree.set(t as usize, new_d);
                if new_d == 0 {
                    let ghost q0 = queue@;
                    proof {
                        lemma_indeg_le_mid(dv, t, pset, node, jj as int + 1, m as int);
                        lemma_indeg_nonneg(dv, t, pset.insert(node), node, 0, m as int);
                        lemma_indeg_zero(dv, t, pset.insert(node), node, m as int);
                        assert(!q0.contains(t));
                    }
                    queue.push(t);
                    proof {
                        assert forall|i2: int, j2: int, t2: int|
                            0 <= i2 < queue@.len() && 0 <= j2 < dv.len() && dv[j2].0 == queue@[i2] && 0 <= t2
                                < dv[j2].1.len() implies #[trigger] seen_before(queue@, i2, dv[j2].1[t2]) by {
                            if i2 < q0.len() {
                                assert(q0[i2] == queue@[i2]);
                                assert(seen_before(q0, i2, dv[j2].1[t2]));
                                let p = choose|p: int| 0 <= p < i2 && q0[p] == dv[j2].1[t2];
                                assert(queue@[p] == q0[p]);
                            } else {
                                let y = dv[j2].1[t2];
                                assert(pset.insert(node).contains(y));
                                if y == node {
                                    assert(queue@[qi as int] == y);
                                } else {
                                    assert(pset.contains(y));
                                    let p = choose|p: int| 0 <= p < qi && q0[p] == y;
                                    assert(queue@[p] == y);
                                }
                            }
                        }
                        assert forall|y: u32| y < n implies (#[trigger] queue@.contains(y) <==> in_degree@[y as int] == 0) by {
                            if y == t {
                                assert(queue@[q0.len() as int] == t);
                            } else {
                                if queue@.contains(y) {
                                    let w = choose|w: int| 0 <= w < queue@.len() && queue@[w] == y;
                                    assert(q0[w] == y);
                                }
                                if q0.contains(y) {
                                    let w = choose|w: int| 0 <= w < q0.len() && q0[w] == y;
                                    assert(queue@[w] == y);
                                }
                            }
                        }
                        assert(done_set(queue@, qi as int) =~= pset) by {
                            assert forall|y: u32| done_set(queue@, qi as int).contains(y) == pset.contains(y) by {
                                if pset.contains(y) {
                                    let w = choose|w: int| 0 <= w < qi && q0[w] == y;
                                    assert(queue@[w] == y);
                                }
                                if done_set(queue@, qi as int).contains(y) {
                                    let w = choose|w: int| 0 <= w < qi && queue@[w] == y;
                                    assert(q0[w] == y);
                                }
                            }
                        }
                    }
                }
            } else {
                proof {
                    assert(!e.1.contains(node));
                }
            }
            jj += 1;
        }
        proof {
            assert(done_set(queue@, qi as int + 1) =~= pset.insert(node)) by {
                assert forall|y: u32| done_set(queue@, qi as int + 1).contains(y) == pset.insert(node).contains(y) by {
                    if done_set(queue@, qi as int + 1).contains(y) && y != node {
                        let w = choose|w: int| 0 <= w < qi + 1 && queue@[w] == y;
                        assert(w < qi);
                    }
                }
            }
            assert forall|y: u32| y < n implies #[trigger] in_degree@[y as int] == indeg(
                dv,
                y,
                done_set(queue@, qi as int + 1),
                0,
                0,
                m as int,
            ) by {
                lemma_indeg_all(dv, y, pset, node, 0, m as int, m as int);
            }
        }
        qi += 1;
    }
    proof {
        lemma_full_iff_len(queue@, n);
    }
    if qi != n as usize {
        proof {
            if spec_has_topo_order(dv, n) {
                let ord = choose|ord: Seq<u32>| spec_is_topo_order(dv, n, ord);
                lemma_all_processed(dv, n, ord, queue@, n as int);
                assert forall|y: u32| y < n implies #[trigger] queue@.contains(y) by {
                    assert(ord.contains(y));
                    let k = choose|k: int| 0 <= k < ord.len() && ord[k] == y;
                    assert(queue@.contains(ord[k]));
                }
            }
        }
        return Err(ContractError::DagCycleDetected);
    }
    proof {
        assert forall|j2: int, t2: int| 0 <= j2 < dv.len() && 0 <= t2 < dv[j2].1.len() implies #[trigger] spec_before(
            queue@,
            dv[j2].1[t2],
            dv[j2].0,
        ) by {
            assert(deps@[j2].milestone_idx < total);
            assert(queue@.contains(dv[j2].0));
            let i2 = choose|i2: int| 0 <= i2 < queue@.len() && queue@[i2] == dv[j2].0;
            assert(seen_before(queue@, i2, dv[j2].1[t2]));
            let p = choose|p: int| 0 <= p < i2 && queue@[p] == dv[j2].1[t2];
            assert(queue@[p] == dv[j2].1[t2] && queue@[i2] == dv[j2].0);
        }
    }
    Ok(queue)
}

/// The first refusal among the dependencies `t..` of entry `e`: a milestone out of range,
/// or the entry's own milestone.
pub open spec fn spec_member_error(e: (u32, Seq<u32>), total: u32, t: int) -> Option<ContractError>
    decreases e.1.len() - t,
{
    if t < 0 || t >= e.1.len() {
        None
    } else if e.1[t] >= total {
        Some(ContractError::InvalidInput)
    } else if e.1[t] == e.0 {
        Some(ContractError::DagCycleDetected)
    } else {
        spec_member_error(e, total, t + 1)
    }
}

/// The first refusal among entries `j..` of a dependency list: a milestone out of range, or
/// a milestone depending on itself.
pub open spec fn spec_entry_error(dv: Seq<(u32, Seq<u32>)>, total: u32, j: int) -> Option<ContractError>
    decreases dv.len() - j,
{
    if j < 0 || j >= dv.len() {
        None
    } else if dv[j].0 >= total {
        Some(ContractError::InvalidInput)
    } else if spec_member_error(dv[j], total, 0) is Some {
        spec_member_error(dv[j], total, 0)
    } else {
        spec_entry_error(dv, total, j + 1)
    }
}

/// Whether a dependency list is a valid plan for `total` milestones: every milestone in
/// range, none depending on itself, and no cycle (a dependency named twice counts once).
pub open spec fn spec_validate_dag(dv: Seq<(u32, Seq<u32>)>, total: u32) -> Result<(), ContractError> {
    match spec_entry_error(dv, total, 0) {
        Some(e) => Err(e),
        None => if spec_has_topo_order(dv, total) {
            Ok(())
        } else {
            Err(ContractError::DagCycleDetected)
        },
    }
}

/// `v` without repeats, first occurrences kept.
fn dedup_u32(v: &Vec<u32>) -> (r: Vec<u32>)
    ensures
        r@.no_duplicates(),
        r@.len() <= v@.len(),
        forall|x: u32| #[trigger] r@.contains(x) <==> v@.contains(x),
{
    let mut out: Vec<u32> = Vec::new();
    let mut i: usize = 0;
    while i < v.len()
        invariant
            i <= v@.len(),
            out@.no_duplicates(),
            out@.len() <= i,
            forall|x: u32| #[trigger] out@.contains(x) <==> v@.take(i as int).contains(x),
        decreases v@.len() - i,
    {
        let x = v[i];
        let ghost o0 = out@;
        let ghost pre = v@.take(i as int);
        let ghost post = v@.take(i + 1);
        proof {
            assert(post == pre.push(x));
        }
        if !contains_u32(&out, x) {
            out.push(x);
            proof {
                assert forall|a: int, b: int| 0 <= a < b < out@.len() implies out@[a] != out@[b] by {
                    if b == o0.len() {
                        assert(o0.contains(o0[a]));
                    }
                }
                assert forall|y: u32| #[trigger] out@.contains(y) <==> post.contains(y) by {
                    if out@.contains(y) && y != x {
                        let w = choose|w: int| 0 <= w < out@.len() && out@[w] == y;
                        assert(o0[w] == y);
                    }
                    if o0.contains(y) {
                        let w = choose|w: int| 0 <= w < o0.len() && o0[w] == y;
                        assert(out@[w] == y);
                    }
                    if post.contains(y) && y != x {
                        let w = choose|w: int| 0 <= w < i + 1 && post[w] == y;
                        assert(pre[w] == y);
                    }
                    if pre.contains(y) {
                        let w = choose|w: int| 0 <= w < i && pre[w] == y;
                        assert(post[w] == y);
                    }
                    if y == x {
                        assert(out@[o0.len() as int] == x);
                        assert(post[i as int] == x);
                    }
                }
            }
        } else {
            proof {
                assert forall|y: u32| #[trigger] out@.contains(y) <==> post.contains(y) by {
                    if post.contains(y) && y != x {
                        let w = choose|w: int| 0 <= w < i + 1 && post[w] == y;
                        assert(pre[w] == y);
                    }
                    if pre.contains(y) {
                        let w = choose|w: int| 0 <= w < i && pre[w] == y;
                        assert(post[w] == y);
                    }
                    if y == x {
                        assert(post[i as int] == x);
                    }
                }
            }
        }
        i += 1;
    }
    proof {
        assert(v@.take(v@.len() as int) == v@);
    }
    out
}

/// Two dependency lists with the same entries in the same order, each naming the same set
/// of milestones.
pub open spec fn spec_same_deps(dv: Seq<(u32, Seq<u32>)>, dv2: Seq<(u32, Seq<u32>)>) -> bool {
    &&& dv2.len() == dv.len()
    &&& forall|j: int| 0 <= j < dv.len() ==> #[trigger] dv2[j].0 == dv[j].0
    &&& forall|j: int, x: u32| 0 <= j < dv.len() ==> (#[trigger] dv2[j].1.contains(x) <==> dv[j].1.contains(x))
}

/// Lists that name the same dependencies are ordered by the same orders.
proof fn lemma_same_deps_topo(dv: Seq<(u32, Seq<u32>)>, dv2: Seq<(u32, Seq<u32>)>, n: u32, ord: Seq<u32>)
    requires
        spec_same_deps(dv, dv2),
        spec_is_topo_order(dv2, n, ord),
    ensures
        spec_is_topo_order(dv, n, ord),
{
    assert forall|j: int, t: int| 0 <= j < dv.len() && 0 <= t < dv[j].1.len() implies #[trigger] spec_before(
        ord,
        dv[j].1[t],
        dv[j].0,
    ) by {
        let x = dv[j].1[t];
        assert(dv[j].1.contains(x));
        assert(dv2[j].1.contains(x));
        let t2 = choose|t2: int| 0 <= t2 < dv2[j].1.len() && dv2[j].1[t2] == x;
        assert(spec_before(ord, dv2[j].1[t2], dv2[j].0));
    }
}

proof fn lemma_same_deps_sym(dv: Seq<(u32, Seq<u32>)>, dv2: Seq<(u32, Seq<u32>)>)
    requires
        spec_same_deps(dv, dv2),
    ensures
        spec_same_deps(dv2, dv),
{
    assert forall|j: int, x: u32| 0 <= j < dv2.len() implies (#[trigger] dv[j].1.contains(x) <==> dv2[j].1.contains(x)) by {
        assert(dv2[j].1.contains(x) <==> dv[j].1.contains(x));
    }
}

proof fn lemma_len_sum_le(dv: Seq<(u32, Seq<u32>)>, dv2: Seq<(u32, Seq<u32>)>, x: u32, k: int)
    requires
        dv2.len() == dv.len(),
        0 <= k <= dv.len(),
        forall|j: int| 0 <= j < dv.len() ==> #[trigger] dv2[j].0 == dv[j].0 && dv2[j].1.len() <= dv[j].1.len(),
    ensures
        spec_len_sum(dv2, x, k) <= spec_len_sum(dv, x, k),
    decreases k,
{
    if k > 0 {
        lemma_len_sum_le(dv, dv2, x, k - 1);
        assert(dv2[k - 1].0 == dv[k - 1].0);
    }
}

/// Each entry of `deps` with its repeated dependencies dropped.
fn dedup_deps(deps: &Vec<MilestoneDependency>) -> (r: Vec<MilestoneDependency>)
    ensures
        spec_same_deps(dep_views(deps@), dep_views(r@)),
        spec_entries_distinct(dep_views(r@)),
        forall|j: int| 0 <= j < deps@.len() ==> #[trigger] r@[j].depends_on@.len() <= deps@[j].depends_on@.len(),
        r@.len() == deps@.len(),
        forall|j: int| 0 <= j < deps@.len() ==> #[trigger] r@[j].milestone_idx == deps@[j].milestone_idx,
{
    let mut out: Vec<MilestoneDependency> = Vec::new();
    let mut j: usize = 0;
    while j < deps.len()
        invariant
            j <= deps@.len(),
            out@.len() == j,
            forall|k: int| 0 <= k < j ==> #[trigger] out@[k].milestone_idx == deps@[k].milestone_idx,
            forall|k: int| 0 <= k < j ==> #[trigger] out@[k].depends_on@.no_duplicates(),
            forall|k: int| 0 <= k < j ==> #[trigger] out@[k].depends_on@.len() <= deps@[k].depends_on@.len(),
            forall|k: int, x: u32| 0 <= k < j ==> (#[trigger] out@[k].depends_on@.contains(x) <==> deps@[k].depends_on@.contains(x)),
        decreases deps@.len() - j,
    {
        let d = dedup_u32(&deps[j].depends_on);
        out.push(MilestoneDependency { milestone_idx: deps[j].milestone_idx, depends_on: d });
        j += 1;
    }
    proof {
        let dv = dep_views(deps@);
        let dv2 = dep_views(out@);
        assert forall|k: int, x: u32| 0 <= k < dv.len() implies (#[trigger] dv2[k].1.contains(x) <==> dv[k].1.contains(x)) by {
            assert(out@[k].depends_on@.contains(x) <==> deps@[k].depends_on@.contains(x));
        }
        assert forall|k: int| 0 <= k < dv2.len() implies (#[trigger] dv2[k]).1.no_duplicates() by {
            assert(out@[k].depends_on@.no_duplicates());
        }
    }
    out
}

/// Run Kahn's algorithm on `deps` with repeated dependencies dropped.
fn kahn_dedup(deps: &Vec<MilestoneDependency>, total: u32) -> (r: Result<Vec<u32>, ContractError>)
    requires
        forall|j: int| 0 <= j < deps.len() ==> (#[trigger] deps@[j]).milestone_idx < total,
        spec_degrees_fit(dep_views(deps@)),
    ensures
        r is Ok <==> spec_has_topo_order(dep_views(deps@), total),
        r is Ok ==> spec_is_topo_order(dep_views(deps@), total, r->Ok_0@),
        r is Err ==> r == Err::<Vec<u32>, ContractError>(ContractError::DagCycleDetected),
{
    let d2 = dedup_deps(deps);
    let ghost dv = dep_views(deps@);
    let ghost dv2 = dep_views(d2@);
    proof {
        assert forall|j: int| 0 <= j < dv.len() implies #[trigger] dv2[j].0 == dv[j].0 && dv2[j].1.len() <= dv[j].1.len() by {
            assert(d2@[j].depends_on@.len() <= deps@[j].depends_on@.len());
            assert(d2@[j].milestone_idx == deps@[j].milestone_idx);
        }
        assert forall|x: u32| #[trigger] spec_len_sum(dv2, x, dv2.len() as int) <= u32::MAX by {
            lemma_len_sum_le(dv, dv2, x, dv.len() as int);
            assert(spec_len_sum(dv, x, dv.len() as int) <= u32::MAX);
        }
        assert forall|j: int| 0 <= j < d2.len() implies (#[trigger] d2@[j]).milestone_idx < total by {
            assert(d2@[j].milestone_idx == deps@[j].milestone_idx);
        }
        lemma_same_deps_sym(dv, dv2);
    }
    let r = kahn(&d2, total);
    proof {
        if r is Ok {
            lemma_same_deps_topo(dv, dv2, total, r->Ok_0@);
        } else if spec_has_topo_order(dv, total) {
            let ord = choose|ord: Seq<u32>| spec_is_topo_order(dv, total, ord);
            lemma_same_deps_topo(dv2, dv, total, ord);
        }
    }
    r
}

/// Check a dependency list for `total_milestones` milestones: every index in range, no
/// milestone depending on itself, and no cycle.
pub fn validate_dag(deps: &Vec<MilestoneDependency>, total_milestones: u32) -> (r: Result<(), ContractError>)
    requires
        spec_degrees_fit(dep_views(deps@)),
    ensures
        r == spec_validate_dag(dep_views(deps@), total_milestones),
{
    let ghost dv = dep_views(deps@);
    let mut j: usize = 0;
    while j < deps.len()
        invariant
            j <= deps.len(),
            dv == dep_views(deps@),
            spec_entry_error(dv, total_milestones, 0) == spec_entry_error(dv, total_milestones, j as int),
            forall|k: int| 0 <= k < j ==> (#[trigger] deps@[k]).milestone_idx < total_milestones,
        decreases deps.len() - j,
    {
        let idx = deps[j].milestone_idx;
        if idx >= total_milestones {
            return Err(ContractError::InvalidInput);
        }
        let ghost e = dv[j as int];
        let mut t: usize = 0;
        while t < deps[j].depends_on.len()
            invariant
                j < deps.len(),
                dv == dep_views(deps@),
                e == dv[j as int],
                e.0 == idx,
                idx < total_milestones,
                spec_entry_error(dv, total_milestones, 0) == spec_entry_error(dv, total_milestones, j as int),
                t <= e.1.len(),
                e.1 == deps@[j as int].depends_on@,
                spec_member_error(e, total_milestones, 0) == spec_member_error(e, total_milestones, t as int),
            decreases e.1.len() - t,
        {
            let required = deps[j].depends_on[t];
            if required >= total_milestones {
                return Err(ContractError::InvalidInput);
            }
            if required == idx {
                return Err(ContractError::DagCycleDetected);
            }
            t += 1;
        }
        j += 1;
    }
    match kahn_dedup(deps, total_milestones) {
        Ok(_) => Ok(()),
        Err(e) => Err(e),
    }
}

/// Order the milestones `0..total` so that each comes after those it depends on (Kahn's
/// algorithm); `DagCycleDetected` when no such order exists.
pub fn topological_order(deps: &Vec<MilestoneDependency>, total: u32) -> (r: Result<Vec<u32>, ContractError>)
    requires
        forall|j: int| 0 <= j < deps.len() ==> (#[trigger] deps@[j]).milestone_idx < total,
        spec_degrees_fit(dep_views(deps@)),
    ensures
        r is Ok <==> spec_has_topo_order(dep_views(deps@), total),
        r is Ok ==> spec_is_topo_order(dep_views(deps@), total, r->Ok_0@),
        r is Err ==> r == Err::<Vec<u32>, ContractError>(ContractError::DagCycleDetected),
{
    kahn_dedup(deps, total)
}

/// Whether a milestone is approved or paid.
pub open spec fn spec_satisfied(m: Option<crate::milestones::Milestone>) -> bool {
    m matches Some(x) && (x.state == MilestoneState::Approved || x.state == MilestoneState::Paid)
}

/// The first reason, among dependencies `t..` of entry `e` of grant `grant_id`, that blocks
/// its milestone: a missing milestone, or one neither approved nor paid.
pub open spec fn spec_required_error(ms: &MilestoneBook, grant_id: u64, e: (u32, Seq<u32>), t: int) -> Option<
    ContractError,
>
    decreases e.1.len() - t,
{
    if t < 0 || t >= e.1.len() {
        None
    } else if ms.milestone(grant_id, e.1[t]) is None {
        Some(ContractError::MilestoneNotFound)
    } else if !spec_satisfied(ms.milestone(grant_id, e.1[t])) {
        Some(ContractError::DependencyNotSatisfied)
    } else {
        spec_required_error(ms, grant_id, e, t + 1)
    }
}

/// The first reason, among entries `j..` that concern milestone `idx`, that blocks it.
pub open spec fn spec_submit_error(ms: &MilestoneBook, grant_id: u64, dv: Seq<(u32, Seq<u32>)>, idx: u32, j: int) -> Option<
    ContractError,
>
    decreases dv.len() - j,
{
    if j < 0 || j >= dv.len() {
        None
    } else if dv[j].0 == idx && spec_required_error(ms, grant_id, dv[j], 0) is Some {
        spec_required_error(ms, grant_id, dv[j], 0)
    } else {
        spec_submit_error(ms, grant_id, dv, idx, j + 1)
    }
}

/// The milestones among `dv` that list `idx` among their dependencies, in order.
pub open spec fn spec_dependents(dv: Seq<(u32, Seq<u32>)>, idx: u32, j: int) -> Seq<u32>
    decreases j,
{
    if j <= 0 {
        Seq::empty()
    } else if dv[j - 1].1.contains(idx) {
        spec_dependents(dv, idx, j - 1).push(dv[j - 1].0)
    } else {
        spec_dependents(dv, idx, j - 1)
    }
}

/// The dependency plan attached to each grant.
pub struct DagBook {
    dags: HashMap<u64, Vec<MilestoneDependency>>,
}

impl DagBook {
    /// The plan attached to a grant, if any.
    pub closed spec fn dag(&self, grant_id: u64) -> Option<Seq<(u32, Seq<u32>)>> {
        if self.dags@.contains_key(grant_id) {
            Some(dep_views(self.dags@[grant_id]@))
        } else {
            None
        }
    }

    pub fn new() -> (b: DagBook)
        ensures
            forall|g: u64| #[trigger] b.dag(g) is None,
    {
        DagBook { dags: HashMap::new() }
    }

    /// The plan attached to a grant.
    pub fn get_dag(&self, grant_id: u64) -> (r: Option<&Vec<MilestoneDependency>>)
        ensures
            match r {
                Some(v) => self.dag(grant_id) == Some(dep_views(v@)),
                None => self.dag(grant_id) is None,
            },
    {
        self.dags.get(&grant_id)
    }

    /// The owner attaches a dependency plan to a grant, once, after checking it.
    pub fn attach_dag(
        &mut self,
        c: &StellarGrantsContract,
        owner: AccountId,
        grant_id: u64,
        deps: Vec<MilestoneDependency>,
    ) -> (r: Result<(), ContractError>)
        requires
            spec_degrees_fit(dep_views(deps@)),
        ensures
            ({
                let g = c.grants.views()[grant_id];
                &&& !c.grants.views().contains_key(grant_id) ==> r == Err::<(), ContractError>(
                    ContractError::GrantNotFound)
                &&& c.grants.views().contains_key(grant_id) && g.owner != owner ==> r == Err::<(), ContractError>(
                    ContractError::Unauthorized)
                &&& c.grants.views().contains_key(grant_id) && g.owner == owner && old(self).dag(grant_id) is Some ==> r
                    == Err::<(), ContractError>(ContractError::DagAlreadyAttached)
                &&& c.grants.views().contains_key(grant_id) && g.owner == owner && old(self).dag(grant_id) is None ==> r
                    == spec_validate_dag(dep_views(deps@), g.total_milestones)
                &&& r is Ok ==> forall|gg: u64| #[trigger] final(self).dag(gg) == if gg == grant_id {
                    Some(dep_views(deps@))
                } else {
                    old(self).dag(gg)
                }
                &&& r is Err ==> forall|gg: u64| #[trigger] final(self).dag(gg) == old(self).dag(gg)
            }),
    {
        let total = match c.grants.get(grant_id) {
            Some(g) => {
                if g.owner != owner {
                    return Err(ContractError::Unauthorized);
                }
                g.total_milestones
            },
            None => return Err(ContractError::GrantNotFound),
        };
        if self.dags.contains_key(&grant_id) {
            return Err(ContractError::DagAlreadyAttached);
        }
        match validate_dag(&deps, total) {
            Ok(()) => {},
            Err(e) => return Err(e),
        }
        let ghost dv = dep_views(deps@);
        self.dags.insert(grant_id, deps);
        assert forall|gg: u64| #[trigger] self.dag(gg) == if gg == grant_id { Some(dv) } else { old(self).dag(gg) } by {}
        Ok(())
    }

    /// Whether milestone `idx` of a grant may be submitted: without a plan always; otherwise
    /// when every milestone it depends on is approved or paid.
    pub fn can_submit(&self, ms: &MilestoneBook, grant_id: u64, idx: u32) -> (r: Result<(), ContractError>)
        ensures
            r == match self.dag(grant_id) {
                None => Ok::<(), ContractError>(()),
                Some(dv) => match spec_submit_error(ms, grant_id, dv, idx, 0) {
                    Some(e) => Err(e),
                    None => Ok(()),
                },
            },
    {
        let deps = match self.dags.get(&grant_id) {
            Some(d) => d,
            None => return Ok(()),
        };
        let ghost dv = dep_views(deps@);
        let mut j: usize = 0;
        while j < deps.len()
            invariant
                self.dag(grant_id) == Some(dv),
                dv == dep_views(deps@),
                j <= deps.len(),
                spec_submit_error(ms, grant_id, dv, idx, 0) == spec_submit_error(ms, grant_id, dv, idx, j as int),
            decreases deps.len() - j,
        {
            if deps[j].milestone_idx == idx {
                let ghost e = dv[j as int];
                let mut t: usize = 0;
                while t < deps[j].depends_on.len()
                    invariant
                        j < deps.len(),
                        self.dag(grant_id) == Some(dv),
                        dv == dep_views(deps@),
                        e == dv[j as int],
                        e.0 == idx,
                        e.1 == deps@[j as int].depends_on@,
                        t <= e.1.len(),
                        spec_submit_error(ms, grant_id, dv, idx, 0) == spec_submit_error(ms, grant_id, dv, idx, j as int),
                        spec_required_error(ms, grant_id, e, 0) == spec_required_error(ms, grant_id, e, t as int),
                    decreases e.1.len() - t,
                {
                    let required = deps[j].depends_on[t];
                    match ms.state_of(grant_id, required) {
                        Some(s) => {
                            if s != MilestoneState::Approved && s != MilestoneState::Paid {
                                return Err(ContractError::DependencyNotSatisfied);
                            }
                        },
                        None => return Err(ContractError::MilestoneNotFound),
                    }
                    t += 1;
                }
            }
            j += 1;
        }
        Ok(())
    }

    /// The milestones of a grant that list `idx` among their dependencies.
    pub fn dependents_of(&self, grant_id: u64, idx: u32) -> (r: Vec<u32>)
        ensures
            r@ == match self.dag(grant_id) {
                None => Seq::<u32>::empty(),
                Some(dv) => spec_dependents(dv, idx, dv.len() as int),
            },
    {
        let deps = match self.dags.get(&grant_id) {
            Some(d) => d,
            None => return Vec::new(),
        };
        let ghost dv = dep_views(deps@);
        let mut result: Vec<u32> = Vec::new();
        let mut j: usize = 0;
        while j < deps.len()
            invariant
                dv == dep_views(deps@),
                j <= deps.len(),
                result@ == spec_dependents(dv, idx, j as int),
            decreases deps.len() - j,
        {
            if contains_u32(&deps[j].depends_on, idx) {
                result.push(deps[j].milestone_idx);
            }
            j += 1;
        }
        result
    }
}

/// The pending milestones among the first `k` of grant `grant_id` that may be submitted now.
pub open spec fn spec_unblocked(dags: &DagBook, ms: &MilestoneBook, grant_id: u64, k: int) -> Seq<u32>
    decreases k,
{
    if k <= 0 {
        Seq::empty()
    } else {
        let i = (k - 1) as u32;
        let prev = spec_unblocked(dags, ms, grant_id, k - 1);
        let free = match dags.dag(grant_id) {
            None => true,
            Some(dv) => spec_submit_error(ms, grant_id, dv, i, 0) is None,
        };
        if ms.milestone(grant_id, i) matches Some(m) && m.state == MilestoneState::Pending && free {
            prev.push(i)
        } else {
            prev
        }
    }
}

/// The pending milestones of a grant whose dependencies are all met, in index order; none for
/// an unknown grant.
pub fn unblocked_milestones(c: &StellarGrantsContract, dags: &DagBook, grant_id: u64) -> (r: Vec<u32>)
    ensures
        !c.grants.views().contains_key(grant_id) ==> r@ == Seq::<u32>::empty(),
        c.grants.views().contains_key(grant_id) ==> r@ == spec_unblocked(
            dags,
            &c.milestones,
            grant_id,
            c.grants.views()[grant_id].total_milestones as int,
        ),
{
    let total = match c.grants.get(grant_id) {
        Some(g) => g.total_milestones,
        None => return Vec::new(),
    };
    let mut result: Vec<u32> = Vec::new();
    let mut i: u32 = 0;
    while i < total
        invariant
            i <= total,
            result@ == spec_unblocked(dags, &c.milestones, grant_id, i as int),
        decreases total - i,
    {
        match c.milestones.state_of(grant_id, i) {
            Some(s) => {
                if s == MilestoneState::Pending && dags.can_submit(&c.milestones, grant_id, i).is_ok() {
                    result.push(i);
                }
            },
            None => {},
        }
        i += 1;
    }
    result
}

} // verus!
