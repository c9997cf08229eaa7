use vstd::prelude::*;
use std::collections::HashMap;

use crate::arith::clamp_i128;
use crate::grants::{Grant, GrantBook};
use crate::types::GrantStatus;

verus! {

broadcast use vstd::std_specs::hash::group_hash_axioms;

/// A rolling window keeps at most this many points.
pub const MAX_WINDOW_SIZE: u32 = 50;
/// A snapshot older than this many ledgers is rebuilt.
pub const STALENESS_THRESHOLD: u32 = 1000;

/// The metric of milestone completion times.
pub const METRIC_MILESTONE_COMPLETION_TIME: u64 = 1;
/// The metric of assessor turnaround times.
pub const METRIC_REVIEWER_TURNAROUND: u64 = 2;
/// The metric of grant outcomes (1 for a success, 0 otherwise).
pub const METRIC_GRANT_SUCCESS: u64 = 3;
/// The metric of total value locked.
pub const METRIC_TVL: u64 = 4;

/// The latest points of a metric, oldest first, with their running (saturating) sum.
#[derive(Debug)]
pub struct RollingWindow {
    pub metric_key: u64,
    pub window_size: u32,
    pub values: Vec<i128>,
    pub timestamps: Vec<u64>,
    pub sum: i128,
    pub count: u32,
}

/// Aggregates over the grants of one category.
#[derive(Clone, Copy, Debug, PartialEq, Eq, Structural)]
pub struct CategoryStats {
    pub category_id: u32,
    pub total_grants: u32,
    pub completed_grants: u32,
    pub total_funded: i128,
    pub avg_completion_ledgers: u32,
    pub success_rate_bps: u32,
}

/// Protocol-wide analytics at one moment.
#[derive(Clone, Copy, Debug, PartialEq, Eq, Structural)]
pub struct AnalyticsSnapshot {
    pub avg_milestone_completion_ledgers: u32,
    pub avg_reviewer_turnaround_ledgers: u32,
    pub overall_success_rate_bps: u32,
    pub top_category_id: Option<u32>,
    pub tvl_7day_growth_bps: i32,
    pub snapshot_at: u64,
}

/// A window's bookkeeping agrees with its points, and it holds at most fifty of them.
pub open spec fn window_wf(w: RollingWindow) -> bool {
    &&& w.values@.len() == w.window_size
    &&& w.timestamps@.len() == w.window_size
    &&& w.count == w.window_size
    &&& w.window_size <= MAX_WINDOW_SIZE
}

/// The rolling windows by metric, the grants of each category, the category list and the
/// cached snapshot.
pub struct AnalyticsBook {
    windows: HashMap<u64, RollingWindow>,
    tag_index: HashMap<u32, Vec<u64>>,
    categories: Vec<u32>,
    snapshot: Option<AnalyticsSnapshot>,
}

impl AnalyticsBook {
    pub closed spec fn window(&self, metric: u64) -> Option<RollingWindow> {
        if self.windows@.contains_key(metric) { Some(self.windows@[metric]) } else { None }
    }

    /// The grants tagged with a category.
    pub closed spec fn category_grants(&self, category_id: u32) -> Seq<u64> {
        if self.tag_index@.contains_key(category_id) { self.tag_index@[category_id]@ } else { Seq::empty() }
    }

    /// The ids of the known categories.
    pub closed spec fn category_list(&self) -> Seq<u32> {
        self.categories@
    }

    pub closed spec fn cached_snapshot(&self) -> Option<AnalyticsSnapshot> {
        self.snapshot
    }

    /// Every window is well formed.
    pub open spec fn wf(&self) -> bool {
        forall|m: u64| #[trigger] self.window(m) is Some ==> window_wf(self.window(m)->0)
    }

    pub fn new() -> (b: AnalyticsBook)
        ensures
            b.wf(),
            forall|m: u64| #[trigger] b.window(m) is None,
            forall|c: u32| #[trigger] b.category_grants(c) == Seq::<u64>::empty(),
            b.category_list() == Seq::<u32>::empty(),
            b.cached_snapshot() is None,
    {
        AnalyticsBook { windows: HashMap::new(), tag_index: HashMap::new(), categories: Vec::new(), snapshot: None }
    }

    /// Tag a grant with a category (adding the category to the list when new).
    pub fn tag_grant(&mut self, grant_id: u64, category_id: u32)
        requires
            old(self).wf(),
        ensures
            final(self).wf(),
            forall|m: u64| #[trigger] final(self).window(m) == old(self).window(m),
            forall|c: u32| #[trigger] final(self).category_grants(c) == if c == category_id {
                old(self).category_grants(c).push(grant_id)
            } else {
                old(self).category_grants(c)
            },
            final(self).category_list() == if old(self).category_list().contains(category_id) {
                old(self).category_list()
            } else {
                old(self).category_list().push(category_id)
            },
            final(self).cached_snapshot() == old(self).cached_snapshot(),
    {
        let mut list = match self.tag_index.remove(&category_id) {
            Some(l) => l,
            None => Vec::new(),
        };
        list.push(grant_id);
        self.tag_index.insert(category_id, list);
        let mut known = false;
        let mut i: usize = 0;
        while i < self.categories.len()
            invariant
                i <= self.categories@.len(),
                known == self.categories@.take(i as int).contains(category_id),
            decreases self.categories@.len() - i,
        {
            proof {
                broadcast use vstd::seq_lib::lemma_seq_contains_after_push;
                assert(self.categories@.take(i + 1) == self.categories@.take(i as int).push(self.categories@[i as int]));
            }
            if self.categories[i] == category_id {
                known = true;
            }
            i += 1;
        }
        proof {
            assert(self.categories@.take(self.categories@.len() as int) == self.categories@);
        }
        if !known {
            self.categories.push(category_id);
        }
        proof {
            assert forall|m: u64| #[trigger] self.window(m) is Some implies window_wf(self.window(m)->0) by {
                assert(old(self).window(m) == self.window(m));
            }
        }
    }

    /// Add a point to a metric's window, evicting the oldest point when it is full.
    pub fn record(&mut self, metric: u64, value: i128, now: u64)
        requires
            old(self).wf(),
        ensures
            final(self).wf(),
            forall|c: u32| #[trigger] final(self).category_grants(c) == old(self).category_grants(c),
            final(self).category_list() == old(self).category_list(),
            final(self).cached_snapshot() == old(self).cached_snapshot(),
            forall|m: u64| m != metric ==> #[trigger] final(self).window(m) == old(self).window(m),
            ({
                let w = old(self).window(metric);
                let vals = match w { Some(w) => w.values@, None => Seq::<i128>::empty() };
                let ts = match w { Some(w) => w.timestamps@, None => Seq::<u64>::empty() };
                let sum = match w { Some(w) => w.sum as int, None => 0 };
                let full = vals.len() >= MAX_WINDOW_SIZE;
                let vals1 = if full { vals.drop_first() } else { vals };
                let ts1 = if full { ts.drop_first() } else { ts };
                let sum1 = if full { clamp_i128(sum - vals[0]) } else { sum };
                let nw = final(self).window(metric)->0;
                &&& final(self).window(metric) is Some
                &&& nw.metric_key == match w { Some(w) => w.metric_key, None => metric }
                &&& nw.values@ == vals1.push(value)
                &&& nw.timestamps@ == ts1.push(now)
                &&& nw.sum == clamp_i128(sum1 + value)
                &&& nw.window_size == vals1.len() + 1
            }),
    {
        let mut window = match self.windows.remove(&metric) {
            Some(w) => w,
            None => RollingWindow { metric_key: metric, window_size: 0, values: Vec::new(), timestamps: Vec::new(), sum: 0, count: 0 },
        };
        proof {
            if old(self).window(metric) is Some {
                assert(window_wf(old(self).window(metric)->0));
            }
        }
        if window.window_size >= MAX_WINDOW_SIZE {
            let oldest = window.values[0];
            window.sum = crate::arith::sat_sub_i128(window.sum, oldest);
            window.values.remove(0);
            window.timestamps.remove(0);
            window.count = window.count - 1;
            window.window_size = window.window_size - 1;
        }
        window.values.push(value);
        window.timestamps.push(now);
        window.sum = crate::arith::sat_add_i128(window.sum, value);
        window.count = window.count + 1;
        window.window_size = window.window_size + 1;
        self.windows.insert(metric, window);
        proof {
            assert forall|m: u64| #[trigger] self.window(m) is Some implies window_wf(self.window(m)->0) by {
                if m != metric {
                    assert(old(self).window(m) == self.window(m));
                }
            }
        }
    }

    /// The average of a metric's window, truncated; `None` without points.
    pub fn rolling_average(&self, metric: u64) -> (r: Option<i128>)
        ensures
            r == match self.window(metric) {
                Some(w) => if w.count == 0 { None } else { Some(crate::arith::div_trunc(w.sum as int, w.count as int) as i128) },
                None => None,
            },
    {
        match self.windows.get(&metric) {
            Some(w) => {
                if w.count == 0 {
                    None
                } else {
                    Some(w.sum / (w.count as i128))
                }
            },
            None => None,
        }
    }

    /// Aggregates over the grants tagged with a category.
    pub fn category_stats(&self, grants: &GrantBook, category_id: u32) -> (r: CategoryStats)
        requires
            spec_category_counts_fit(crate::multi_grant::spec_found(self.category_grants(category_id), grants.grants())),
        ensures
            r == spec_category_stats(category_id, crate::multi_grant::spec_found(self.category_grants(category_id), grants.grants())),
    {
        let ids = self.get_category_grants(category_id);
        let ghost all = crate::multi_grant::spec_found(ids@, grants.grants());
        let mut total: u32 = 0;
        let mut completed: u32 = 0;
        let mut funded: i128 = 0;
        let mut i: usize = 0;
        while i < ids.len()
            invariant
                i <= ids@.len(),
                all == crate::multi_grant::spec_found(ids@, grants.grants()),
                spec_category_counts_fit(all),
                crate::multi_grant::spec_found(ids@.take(i as int), grants.grants()).len() <= all.len(),
                ({
                    let gs = crate::multi_grant::spec_found(ids@.take(i as int), grants.grants());
                    total == gs.len() && completed == spec_completed(gs) && funded == spec_funded(gs)
                        && spec_completed(gs) <= gs.len()
                }),
            decreases ids@.len() - i,
        {
            let gid = ids[i];
            let ghost prev = crate::multi_grant::spec_found(ids@.take(i as int), grants.grants());
            proof {
                assert(ids@.take(i + 1).drop_last() == ids@.take(i as int));
                crate::multi_grant::lemma_found_prefix(ids@, grants.grants(), i + 1);
            }
            match grants.get(gid) {
                Some(g) => {
                    total = total + 1;
                    funded = crate::arith::sat_add_i128(funded, g.escrow_balance);
                    if g.status == GrantStatus::Completed {
                        completed = completed + 1;
                    }
                    proof {
                        assert(crate::multi_grant::spec_found(ids@.take(i + 1), grants.grants()).drop_last() == prev);
                    }
                },
                None => {},
            }
            i += 1;
        }
        proof {
            assert(ids@.take(ids@.len() as int) == ids@);
        }
        let success_rate_bps: u32 = if total > 0 { (completed * 10_000) / total } else { 0 };
        CategoryStats {
            category_id,
            total_grants: total,
            completed_grants: completed,
            total_funded: funded,
            avg_completion_ledgers: 0,
            success_rate_bps,
        }
    }

    fn get_category_grants(&self, category_id: u32) -> (r: Vec<u64>)
        ensures
            r@ == self.category_grants(category_id),
    {
        match self.tag_index.get(&category_id) {
            Some(l) => {
                let mut out: Vec<u64> = Vec::new();
                let mut i: usize = 0;
                while i < l.len()
                    invariant
                        i <= l@.len(),
                        out@ == l@.take(i as int),
                    decreases l@.len() - i,
                {
                    out.push(l[i]);
                    proof {
                        assert(l@.take(i + 1) == l@.take(i as int).push(l@[i as int]));
                    }
                    i += 1;
                }
                proof {
                    assert(l@.take(l@.len() as int) == l@);
                }
                out
            },
            None => Vec::new(),
        }
    }

    /// Build the analytics snapshot at `now` and cache it: the averages of the completion
    /// and turnaround windows, the success rate of the outcome window, the category with the
    /// most funds in escrow, and the growth of the value locked over its last seven points.
    pub fn build_snapshot(&mut self, grants: &GrantBook, now: u64) -> (r: AnalyticsSnapshot)
        requires
            old(self).wf(),
            spec_snapshot_fits(old(self), grants.grants()),
        ensures
            final(self).wf(),
            forall|m: u64| #[trigger] final(self).window(m) == old(self).window(m),
            forall|c: u32| #[trigger] final(self).category_grants(c) == old(self).category_grants(c),
            final(self).category_list() == old(self).category_list(),
            r == spec_snapshot(old(self), grants.grants(), now),
            final(self).cached_snapshot() == Some(r),
    {
        let milestone_avg: i128 = match self.rolling_average(METRIC_MILESTONE_COMPLETION_TIME) {
            Some(a) => a,
            None => 0,
        };
        let reviewer_avg: i128 = match self.rolling_average(METRIC_REVIEWER_TURNAROUND) {
            Some(a) => a,
            None => 0,
        };
        let overall_success_rate_bps: u32 = match self.windows.get(&METRIC_GRANT_SUCCESS) {
            Some(w) => {
                if w.count > 0 {
                    (#[verifier::truncate] (((w.sum * 10_000) / (w.count as i128)) as u32))
                } else {
                    0
                }
            },
            None => 0,
        };
        let mut top_category_id: Option<u32> = None;
        let mut max_funded: i128 = 0;
        let mut i: usize = 0;
        while i < self.categories.len()
            invariant
                i <= self.categories@.len(),
                spec_snapshot_fits(self, grants.grants()),
                (top_category_id, max_funded as int) == spec_top_category(self, grants.grants(), i as int),
            decreases self.categories@.len() - i,
        {
            let cat = self.categories[i];
            proof {
                assert(self.category_list()[i as int] == cat);
            }
            let stats = self.category_stats(grants, cat);
            if stats.total_funded > max_funded {
                max_funded = stats.total_funded;
                top_category_id = Some(cat);
            }
            i += 1;
        }
        let tvl_7day_growth_bps: i32 = match self.windows.get(&METRIC_TVL) {
            Some(w) => {
                if w.window_size >= 7 {
                    let current_tvl = w.values[(w.window_size - 1) as usize];
                    let tvl_7days_ago = w.values[(w.window_size - 7) as usize];
                    if tvl_7days_ago > 0 {
                        (#[verifier::truncate] ((((current_tvl - tvl_7days_ago) * 10_000) / tvl_7days_ago) as i32))
                    } else {
                        0
                    }
                } else {
                    0
                }
            },
            None => 0,
        };
        let snapshot = AnalyticsSnapshot {
            avg_milestone_completion_ledgers: milestone_avg as u32,
            avg_reviewer_turnaround_ledgers: reviewer_avg as u32,
            overall_success_rate_bps,
            top_category_id,
            tvl_7day_growth_bps,
            snapshot_at: now,
        };
        self.snapshot = Some(snapshot);
        proof {
            assert forall|m: u64| #[trigger] self.window(m) is Some implies window_wf(self.window(m)->0) by {
                assert(old(self).window(m) == self.window(m));
            }
        }
        snapshot
    }

    /// The cached snapshot (a snapshot is never older than the current ledger, so it is
    /// returned as it is).
    pub fn get_snapshot(&self) -> (r: Option<AnalyticsSnapshot>)
        ensures
            r == self.cached_snapshot(),
    {
        self.snapshot
    }

    /// The window of a metric: its size, points, timestamps, sum and count.
    pub fn get_window(&self, metric: u64) -> (r: Option<(u32, Vec<i128>, Vec<u64>, i128, u32)>)
        ensures
            match r {
                Some(t) => self.window(metric) is Some && t.0 == self.window(metric)->0.window_size && t.1@ == self.window(
                    metric,
                )->0.values@ && t.2@ == self.window(metric)->0.timestamps@ && t.3 == self.window(metric)->0.sum && t.4
                    == self.window(metric)->0.count,
                None => self.window(metric) is None,
            },
    {
        match self.windows.get(&metric) {
            Some(w) => {
                let mut vals: Vec<i128> = Vec::new();
                let mut ts: Vec<u64> = Vec::new();
                let mut i: usize = 0;
                while i < w.values.len()
                    invariant
                        i <= w.values@.len(),
                        vals@ == w.values@.take(i as int),
                    decreases w.values@.len() - i,
                {
                    vals.push(w.values[i]);
                    proof {
                        assert(w.values@.take(i + 1) == w.values@.take(i as int).push(w.values@[i as int]));
                    }
                    i += 1;
                }
                let mut j: usize = 0;
                while j < w.timestamps.len()
                    invariant
                        j <= w.timestamps@.len(),
                        ts@ == w.timestamps@.take(j as int),
                    decreases w.timestamps@.len() - j,
                {
                    ts.push(w.timestamps[j]);
                    proof {
                        assert(w.timestamps@.take(j + 1) == w.timestamps@.take(j as int).push(w.timestamps@[j as int]));
                    }
                    j += 1;
                }
                proof {
                    assert(w.values@.take(w.values@.len() as int) == w.values@);
                    assert(w.timestamps@.take(w.timestamps@.len() as int) == w.timestamps@);
                }
                Some((w.window_size, vals, ts, w.sum, w.count))
            },
            None => None,
        }
    }
}

/// Number of completed grants in `gs`.
pub open spec fn spec_completed(gs: Seq<Grant>) -> int
    decreases gs.len(),
{
    if gs.len() == 0 {
        0
    } else {
        spec_completed(gs.drop_last()) + if gs.last().status == GrantStatus::Completed { 1int } else { 0int }
    }
}

/// Saturating total of the escrow balances of `gs`.
pub open spec fn spec_funded(gs: Seq<Grant>) -> int
    decreases gs.len(),
{
    if gs.len() == 0 { 0 } else { clamp_i128(spec_funded(gs.drop_last()) + gs.last().escrow_balance) }
}

/// The counts of a category fit where they are computed.
pub open spec fn spec_category_counts_fit(gs: Seq<Grant>) -> bool {
    &&& gs.len() <= u32::MAX
    &&& spec_completed(gs) * 10_000 <= u32::MAX
}

/// The statistics of a category whose grants are `gs`.
pub open spec fn spec_category_stats(category_id: u32, gs: Seq<Grant>) -> CategoryStats {
    let total = gs.len();
    CategoryStats {
        category_id,
        total_grants: total as u32,
        completed_grants: spec_completed(gs) as u32,
        total_funded: spec_funded(gs) as i128,
        avg_completion_ledgers: 0,
        success_rate_bps: if total > 0 { ((spec_completed(gs) * 10_000) / total as int) as u32 } else { 0 },
    }
}

/// The category with the most funds among the first `n` listed (the first one on a tie,
/// none unless some has more than zero), with its funds.
pub open spec fn spec_top_category(book: &AnalyticsBook, grants: Map<u64, Grant>, n: int) -> (Option<u32>, int)
    decreases n,
{
    if n <= 0 {
        (None, 0)
    } else {
        let prev = spec_top_category(book, grants, n - 1);
        let c = book.category_list()[n - 1];
        let f = spec_funded(crate::multi_grant::spec_found(book.category_grants(c), grants)) as i128;
        if f > prev.1 { (Some(c), f as int) } else { prev }
    }
}

/// The success-rate window's `sum * 10000` fits, every listed category's counts fit, and
/// the value-locked growth fits where it is computed.
pub open spec fn spec_snapshot_fits(book: &AnalyticsBook, grants: Map<u64, Grant>) -> bool {
    &&& (book.window(METRIC_GRANT_SUCCESS) matches Some(w) ==> i128::MIN <= w.sum * 10_000 <= i128::MAX)
    &&& forall|i: int| 0 <= i < book.category_list().len() ==> spec_category_counts_fit(
        crate::multi_grant::spec_found(book.category_grants(#[trigger] book.category_list()[i]), grants),
    )
    &&& (book.window(METRIC_TVL) matches Some(w) ==> w.window_size >= 7 ==> ({
        let cur = w.values@[w.window_size - 1];
        let prev = w.values@[w.window_size - 7];
        prev > 0 ==> i128::MIN <= (cur - prev) * 10_000 <= i128::MAX
    }))
}

/// The snapshot built from `book` at `now`.
pub open spec fn spec_snapshot(book: &AnalyticsBook, grants: Map<u64, Grant>, now: u64) -> AnalyticsSnapshot {
    let avg = |m: u64| match book.window(m) {
        Some(w) => if w.count == 0 { 0 } else { crate::arith::div_trunc(w.sum as int, w.count as int) },
        None => 0,
    };
    AnalyticsSnapshot {
        avg_milestone_completion_ledgers: avg(METRIC_MILESTONE_COMPLETION_TIME) as u32,
        avg_reviewer_turnaround_ledgers: avg(METRIC_REVIEWER_TURNAROUND) as u32,
        overall_success_rate_bps: match book.window(METRIC_GRANT_SUCCESS) {
            Some(w) => if w.count > 0 { crate::arith::div_trunc(w.sum * 10_000, w.count as int) as u32 } else { 0 },
            None => 0,
        },
        top_category_id: spec_top_category(book, grants, book.category_list().len() as int).0,
        tvl_7day_growth_bps: match book.window(METRIC_TVL) {
            Some(w) => if w.window_size >= 7 {
                let cur = w.values@[w.window_size - 1];
                let prev = w.values@[w.window_size - 7];
                if prev > 0 { crate::arith::div_trunc((cur - prev) * 10_000, prev as int) as i32 } else { 0 }
            } else {
                0
            },
            None => 0,
        },
        snapshot_at: now,
    }
}

} // verus!
