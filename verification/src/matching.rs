use vstd::prelude::*;
use std::collections::HashMap;

use crate::constants::CONTRACT_ACCOUNT;
use crate::errors::ContractError;
use crate::escrow::EscrowBook;
use crate::grants::GrantBook;
use crate::arith::{clamp_i128, clamp_u32};
use crate::keys::Transfer;
use crate::types::{AccountId, MatchingAllocation};

verus! {

/// `r` is the integer square root of `n`: the largest natural number whose square is at most `n`.
pub open spec fn is_floor_sqrt(r: int, n: int) -> bool {
    0 <= r && r * r <= n && n < (r + 1) * (r + 1)
}

/// The integer square root of `n`; 0 when `n` is not positive.
pub open spec fn spec_isqrt(n: int) -> int {
    if n <= 0 {
        0
    } else {
        choose|s: int| is_floor_sqrt(s, n)
    }
}

/// A number has at most one integer square root.
proof fn lemma_floor_sqrt_unique(a: int, b: int, n: int)
    requires
        is_floor_sqrt(a, n),
        is_floor_sqrt(b, n),
    ensures
        a == b,
{
    if a < b {
        assert((a + 1) * (a + 1) <= b * b) by (nonlinear_arith)
            requires 0 <= a, a + 1 <= b;
    } else if b < a {
        assert((b + 1) * (b + 1) <= a * a) by (nonlinear_arith)
            requires 0 <= b, b + 1 <= a;
    }
}

/// For any positive `x`, one Newton step `(x + n / x) / 2` never falls below a number
/// `s` whose square is at most `n`.
proof fn lemma_newton_step_stays_above(n: int, x: int, s: int)
    requires
        n > 0,
        x > 0,
        s >= 0,
        s * s <= n,
    ensures
        (x + n / x) / 2 >= s,
{
    let q = n / x;
    assert(n < (q + 1) * x) by (nonlinear_arith)
        requires x > 0, q == n / x;
    if x + q < 2 * s {
        assert((q + 1) * x <= (2 * s - x) * x) by (nonlinear_arith)
            requires x > 0, q + 1 <= 2 * s - x;
        assert((2 * s - x) * x <= s * s) by (nonlinear_arith);
    }
}

/// When `x * x > n`, a Newton step strictly decreases `x`.
proof fn lemma_newton_step_decreases(n: int, x: int)
    requires
        n > 0,
        x > 0,
        x * x > n,
    ensures
        (x + n / x) / 2 < x,
{
    let q = n / x;
    assert(q * x <= n) by (nonlinear_arith)
        requires x > 0, q == n / x, n > 0;
    assert(q < x) by (nonlinear_arith)
        requires x > 0, q * x <= n, x * x > n;
}

/// `(a + b) / 2` for non-negative `a` and `b`, without forming `a + b`.
fn half_sum(a: i128, b: i128) -> (r: i128)
    requires
        a >= 0,
        b >= 0,
    ensures
        r == (a + b) / 2,
{
    let r = a / 2 + b / 2 + (a % 2 + b % 2) / 2;
    assert(r == (a + b) / 2) by (nonlinear_arith)
        requires a >= 0, b >= 0, r == a / 2 + b / 2 + (a % 2 + b % 2) / 2;
    r
}

/// Integer square root by Newton's method; 0 for every non-positive input.
pub fn isqrt(n: i128) -> (r: i128)
    ensures
        r == spec_isqrt(n as int),
        n <= 0 ==> r == 0,
        n > 0 ==> is_floor_sqrt(r as int, n as int),
{
    if n < 0 {
        return 0;
    }
    if n == 0 {
        return 0;
    }
    proof {
        lemma_floor_sqrt_exists(n as int);
    }
    let ghost s: int = choose|s: int| #[trigger] is_floor_sqrt(s, n as int);
    assert(1 <= s <= n) by (nonlinear_arith)
        requires is_floor_sqrt(s, n as int), n > 0;
    let mut x = n;
    let mut y = half_sum(x, 1);
    assert(n * n >= n) by (nonlinear_arith) requires n > 0;
    assert(n / n == 1) by (nonlinear_arith) requires n > 0;
    while y < x
        invariant
            n > 0,
            is_floor_sqrt(s, n as int),
            1 <= s <= x <= n,
            y == (x + n / x) / 2,
        decreases x,
    {
        proof {
            lemma_newton_step_stays_above(n as int, x as int, s);
        }
        x = y;
        assert(x + n / x <= n + 1) by (nonlinear_arith)
            requires 1 <= x <= n;
        y = half_sum(x, n / x);
    }
    proof {
        if x * x > n {
            lemma_newton_step_decreases(n as int, x as int);
        }
        assert(x == s) by (nonlinear_arith)
            requires x * x <= n, is_floor_sqrt(s, n as int), s <= x;
        lemma_floor_sqrt_unique(x as int, spec_isqrt(n as int), n as int);
    }
    x
}

/// Every positive number has an integer square root.
proof fn lemma_floor_sqrt_exists(n: int)
    requires
        n > 0,
    ensures
        exists|s: int| #[trigger] is_floor_sqrt(s, n),
    decreases n,
{
    if n == 1 {
        assert(is_floor_sqrt(1, 1));
    } else {
        lemma_floor_sqrt_exists(n - 1);
        let s = choose|s: int| #[trigger] is_floor_sqrt(s, n - 1);
        if n < (s + 1) * (s + 1) {
            assert(is_floor_sqrt(s, n));
        } else {
            assert(n == (s + 1) * (s + 1));
            assert(n < (s + 2) * (s + 2)) by (nonlinear_arith)
                requires n == (s + 1) * (s + 1), s >= 0;
            assert(is_floor_sqrt(s + 1, n));
        }
    }
}


/// A quadratic-funding matching round.
#[derive(Clone, Debug)]
pub struct MatchingRound {
    pub id: u32,
    pub token: AccountId,
    pub matching_pool: i128,
    pub start_ledger: u32,
    pub end_ledger: u32,
    pub eligible_grant_ids: Vec<u64>,
    pub allocations: Vec<MatchingAllocation>,
    pub finalized: bool,
    pub distributed: bool,
    pub created_by: AccountId,
}

/// A contributor's running contribution to one grant within one round.
#[derive(Clone, Copy, Debug, PartialEq, Eq, Structural)]
pub struct MatchingContribution {
    pub contributor: AccountId,
    pub grant_id: u64,
    pub amount: i128,
    pub contributed_at: u64,
}

/// A contribution together with the round it belongs to.
#[derive(Clone, Copy, Debug, PartialEq, Eq, Structural)]
pub struct RoundContribution {
    pub round_id: u32,
    pub contribution: MatchingContribution,
}

/// Whether `c` is the contribution of `contributor` to `grant_id` in `round_id`.
pub open spec fn is_contribution_of(c: RoundContribution, round_id: u32, contributor: AccountId, grant_id: u64) -> bool {
    c.round_id == round_id && c.contribution.contributor == contributor && c.contribution.grant_id == grant_id
}

/// The first record of `contributor` to `grant_id` in `round_id` in `list`, if any.
pub open spec fn spec_lookup(list: Seq<RoundContribution>, round_id: u32, contributor: AccountId, grant_id: u64) -> Option<
    MatchingContribution,
>
    decreases list.len(),
{
    if list.len() == 0 {
        None
    } else {
        let prev = spec_lookup(list.drop_last(), round_id, contributor, grant_id);
        if prev is Some {
            prev
        } else if is_contribution_of(list.last(), round_id, contributor, grant_id) {
            Some(list.last().contribution)
        } else {
            None
        }
    }
}

proof fn lemma_lookup_none(list: Seq<RoundContribution>, round_id: u32, contributor: AccountId, grant_id: u64)
    requires
        forall|j: int| 0 <= j < list.len() ==> !is_contribution_of(#[trigger] list[j], round_id, contributor, grant_id),
    ensures
        spec_lookup(list, round_id, contributor, grant_id) is None,
    decreases list.len(),
{
    if list.len() > 0 {
        let d = list.drop_last();
        assert forall|j: int| 0 <= j < d.len() implies !is_contribution_of(#[trigger] d[j], round_id, contributor, grant_id) by {
            assert(d[j] == list[j]);
        }
        lemma_lookup_none(d, round_id, contributor, grant_id);
        assert(!is_contribution_of(list[list.len() - 1], round_id, contributor, grant_id));
    }
}

proof fn lemma_lookup_first(list: Seq<RoundContribution>, round_id: u32, contributor: AccountId, grant_id: u64, i: int)
    requires
        0 <= i < list.len(),
        is_contribution_of(list[i], round_id, contributor, grant_id),
        forall|j: int| 0 <= j < i ==> !is_contribution_of(#[trigger] list[j], round_id, contributor, grant_id),
    ensures
        spec_lookup(list, round_id, contributor, grant_id) == Some(list[i].contribution),
    decreases list.len(),
{
    let d = list.drop_last();
    if i == list.len() - 1 {
        assert forall|j: int| 0 <= j < d.len() implies !is_contribution_of(#[trigger] d[j], round_id, contributor, grant_id) by {
            assert(d[j] == list[j]);
        }
        lemma_lookup_none(d, round_id, contributor, grant_id);
    } else {
        assert forall|j: int| 0 <= j < i implies !is_contribution_of(#[trigger] d[j], round_id, contributor, grant_id) by {
            assert(d[j] == list[j]);
        }
        lemma_lookup_first(d, round_id, contributor, grant_id, i);
    }
}

/// Replacing the first record of a key by another record with the same key changes only
/// that key's lookup.
proof fn lemma_lookup_update(list: Seq<RoundContribution>, i: int, x: RoundContribution, rr: u32, cc: AccountId, gg: u64)
    requires
        0 <= i < list.len(),
        is_contribution_of(list[i], x.round_id, x.contribution.contributor, x.contribution.grant_id),
        forall|j: int| 0 <= j < i ==> !is_contribution_of(#[trigger] list[j], x.round_id, x.contribution.contributor,
            x.contribution.grant_id),
    ensures
        spec_lookup(list.update(i, x), rr, cc, gg) == if is_contribution_of(x, rr, cc, gg) {
            Some(x.contribution)
        } else {
            spec_lookup(list, rr, cc, gg)
        },
    decreases list.len(),
{
    let n = list.update(i, x);
    let d = list.drop_last();
    if i == list.len() - 1 {
        assert(n.drop_last() == d);
        if is_contribution_of(x, rr, cc, gg) {
            assert forall|j: int| 0 <= j < d.len() implies !is_contribution_of(#[trigger] d[j], rr, cc, gg) by {
                assert(d[j] == list[j]);
            }
            lemma_lookup_none(d, rr, cc, gg);
        }
    } else {
        assert(n.drop_last() == d.update(i, x));
        assert forall|j: int| 0 <= j < i implies !is_contribution_of(#[trigger] d[j], x.round_id, x.contribution.contributor,
            x.contribution.grant_id) by {
            assert(d[j] == list[j]);
        }
        lemma_lookup_update(d, i, x, rr, cc, gg);
        if is_contribution_of(x, rr, cc, gg) {
            lemma_lookup_first(d, rr, cc, gg, i);
        }
    }
}

/// Over the first `n` records of `list`, the contributions to `grant_id` in `round_id`:
/// the (saturating) sum of their integer square roots, the (saturating) sum of their
/// amounts, and their number (saturating at `u32::MAX`).
pub open spec fn spec_qf_parts(list: Seq<RoundContribution>, round_id: u32, grant_id: u64, n: int) -> (int, int, int)
    decreases n,
{
    if n <= 0 {
        (0, 0, 0)
    } else {
        let p = spec_qf_parts(list, round_id, grant_id, n - 1);
        let c = list[n - 1];
        if c.round_id == round_id && c.contribution.grant_id == grant_id {
            (
                clamp_i128(p.0 + spec_isqrt(c.contribution.amount as int)),
                clamp_i128(p.1 + c.contribution.amount),
                clamp_u32(p.2 + 1),
            )
        } else {
            p
        }
    }
}

/// A grant's quadratic-funding score in a round (the square of the sum of the square roots
/// of its contributions, saturating), its direct contributions and its number of
/// contributions (one per contributor).
pub open spec fn spec_qf_score(list: Seq<RoundContribution>, round_id: u32, grant_id: u64) -> (i128, i128, u32) {
    let p = spec_qf_parts(list, round_id, grant_id, list.len() as int);
    (clamp_i128(p.0 * p.0) as i128, p.1 as i128, p.2 as u32)
}

/// A grant's allocation before the pool is shared: its score and direct total, no match.
pub open spec fn spec_allocation(list: Seq<RoundContribution>, round_id: u32, grant_id: u64) -> MatchingAllocation {
    let q = spec_qf_score(list, round_id, grant_id);
    MatchingAllocation { grant_id, direct_contributions: q.1, match_amount: 0, unique_contributors: q.2, qf_score: q.0 }
}

/// The (saturating) total of the scores of the first `n` grants of `ids`.
pub open spec fn spec_total_qf(list: Seq<RoundContribution>, round_id: u32, ids: Seq<u64>, n: int) -> int
    decreases n,
{
    if n <= 0 {
        0
    } else {
        clamp_i128(spec_total_qf(list, round_id, ids, n - 1) + spec_qf_score(list, round_id, ids[n - 1]).0)
    }
}

/// An allocation with its share of `pool`: `qf_score * pool / total` when the total score is
/// positive, nothing otherwise.
pub open spec fn spec_matched(a: MatchingAllocation, pool: i128, total: int) -> MatchingAllocation {
    MatchingAllocation { match_amount: if total > 0 { (a.qf_score * pool / total) as i128 } else { 0 }, ..a }
}

/// The allocations of a round over `ids`: each grant's score and its share of the pool.
pub open spec fn spec_allocations(list: Seq<RoundContribution>, round_id: u32, ids: Seq<u64>, pool: i128) -> Seq<
    MatchingAllocation,
> {
    let total = spec_total_qf(list, round_id, ids, ids.len() as int);
    ids.map_values(|g: u64| spec_matched(spec_allocation(list, round_id, g), pool, total))
}

/// Each product of a grant's score and the pool fits in `i128`.
pub open spec fn spec_match_fits(list: Seq<RoundContribution>, round_id: u32, ids: Seq<u64>, pool: i128) -> bool {
    forall|i: int| 0 <= i < ids.len() ==> i128::MIN <= #[trigger] spec_qf_score(list, round_id, ids[i]).0 * pool <= i128::MAX
}

proof fn lemma_qf_parts_bounds(list: Seq<RoundContribution>, round_id: u32, grant_id: u64, n: int)
    ensures
        0 <= spec_qf_parts(list, round_id, grant_id, n).0 <= i128::MAX,
        i128::MIN <= spec_qf_parts(list, round_id, grant_id, n).1 <= i128::MAX,
        0 <= spec_qf_parts(list, round_id, grant_id, n).2 <= u32::MAX,
    decreases n,
{
    if n > 0 {
        lemma_qf_parts_bounds(list, round_id, grant_id, n - 1);
        let c = list[n - 1];
        if c.contribution.amount > 0 {
            lemma_floor_sqrt_exists(c.contribution.amount as int);
        }
    }
}

proof fn lemma_total_qf_bounds(list: Seq<RoundContribution>, round_id: u32, ids: Seq<u64>, n: int)
    ensures
        0 <= spec_total_qf(list, round_id, ids, n) <= i128::MAX,
    decreases n,
{
    if n > 0 {
        lemma_total_qf_bounds(list, round_id, ids, n - 1);
        let p = spec_qf_parts(list, round_id, ids[n - 1], list.len() as int);
        lemma_qf_parts_bounds(list, round_id, ids[n - 1], list.len() as int);
        assert(p.0 * p.0 >= 0) by (nonlinear_arith) requires p.0 >= 0;
    }
}

/// The matching rounds, their pools, the contributions, and the round counter.
pub struct MatchingBook {
    rounds: HashMap<u32, MatchingRound>,
    pools: HashMap<u32, i128>,
    contributions: Vec<RoundContribution>,
    counter: u32,
}

impl MatchingBook {
    pub closed spec fn rounds(&self) -> Map<u32, MatchingRound> {
        self.rounds@
    }

    pub closed spec fn pools(&self) -> Map<u32, i128> {
        self.pools@
    }

    pub closed spec fn contribution_list(&self) -> Seq<RoundContribution> {
        self.contributions@
    }

    pub closed spec fn counter(&self) -> u32 {
        self.counter
    }

    /// The contribution of `contributor` to `grant_id` in `round_id`, if any.
    pub open spec fn contribution(&self, round_id: u32, contributor: AccountId, grant_id: u64) -> Option<MatchingContribution> {
        spec_lookup(self.contribution_list(), round_id, contributor, grant_id)
    }

    /// A round gets its allocations only when it is finalized.
    pub open spec fn wf(&self) -> bool {
        forall|id: u32| #[trigger] self.rounds().contains_key(id) ==> self.rounds()[id].matching_pool > 0 && (
        !self.rounds()[id].finalized ==> self.rounds()[id].allocations@.len() == 0)
    }

    pub fn new() -> (b: MatchingBook)
        ensures
            b.wf(),
            b.rounds() == Map::<u32, MatchingRound>::empty(),
            b.pools() == Map::<u32, i128>::empty(),
            b.contribution_list() == Seq::<RoundContribution>::empty(),
            b.counter() == 0,
    {
        MatchingBook { rounds: HashMap::new(), pools: HashMap::new(), contributions: Vec::new(), counter: 0 }
    }

    /// Open a matching round over `eligible_grant_ids`, from `current_ledger` for
    /// `duration_ledgers` ledgers; the admin pays the matching pool in.
    pub fn create_round(
        &mut self,
        admin: AccountId,
        token: AccountId,
        matching_pool: i128,
        duration_ledgers: u32,
        eligible_grant_ids: Vec<u64>,
        current_ledger: u32,
        transfers: &mut Vec<Transfer>,
    ) -> (r: Result<u32, ContractError>)
        requires
            old(self).wf(),
        ensures
            final(self).wf(),
            final(self).contribution_list() == old(self).contribution_list(),
            matching_pool <= 0 ==> r == Err::<u32, ContractError>(ContractError::InvalidInput),
            eligible_grant_ids@.len() == 0 ==> r == Err::<u32, ContractError>(ContractError::InvalidInput),
            r is Ok <==> matching_pool > 0 && eligible_grant_ids@.len() > 0,
            r is Err ==> final(self).rounds() == old(self).rounds() && final(self).pools() == old(self).pools()
                && final(self).counter() == old(self).counter() && final(transfers)@ == old(transfers)@,
            r is Ok ==> ({
                let id = crate::arith::clamp_u32(old(self).counter() + 1) as u32;
                let round = final(self).rounds()[id];
                &&& r == Ok::<u32, ContractError>(id)
                &&& final(self).counter() == id
                &&& final(self).rounds() == old(self).rounds().insert(id, round)
                &&& round.id == id && round.token == token && round.matching_pool == matching_pool
                &&& round.start_ledger == current_ledger
                &&& round.end_ledger == crate::arith::clamp_u32(current_ledger + duration_ledgers)
                &&& round.eligible_grant_ids@ == eligible_grant_ids@ && round.allocations@.len() == 0
                &&& !round.finalized && !round.distributed && round.created_by == admin
                &&& final(self).pools() == old(self).pools().insert(id, matching_pool)
                &&& final(transfers)@ == old(transfers)@.push(Transfer { token, from: admin, to: CONTRACT_ACCOUNT,
                    amount: matching_pool })
            }),
    {
        if matching_pool <= 0 {
            return Err(ContractError::InvalidInput);
        }
        if eligible_grant_ids.len() == 0 {
            return Err(ContractError::InvalidInput);
        }
        let round_id = self.counter.saturating_add(1);
        self.counter = round_id;
        let start_ledger = current_ledger;
        let end_ledger = start_ledger.saturating_add(duration_ledgers);
        let round = MatchingRound {
            id: round_id,
            token,
            matching_pool,
            start_ledger,
            end_ledger,
            eligible_grant_ids,
            allocations: Vec::new(),
            finalized: false,
            distributed: false,
            created_by: admin,
        };
        let ghost old_rounds = self.rounds@;
        self.rounds.insert(round_id, round);
        self.pools.insert(round_id, matching_pool);
        transfers.push(Transfer { token, from: admin, to: CONTRACT_ACCOUNT, amount: matching_pool });
        proof {
            assert(self.rounds@ == old_rounds.insert(round_id, self.rounds@[round_id]));
            assert forall|id: u32| #[trigger] self.rounds().contains_key(id) implies self.rounds()[id].matching_pool > 0 && (
                !self.rounds()[id].finalized ==> self.rounds()[id].allocations@.len() == 0) by {
                if id != round_id {
                    assert(old(self).rounds().contains_key(id));
                }
            }
        }
        Ok(round_id)
    }

    /// Contribute `amount` to an eligible grant while the round is open (between its start
    /// and end ledgers, not finalized); contributions by the same contributor to the same
    /// grant add up (saturating).
    pub fn contribute(
        &mut self,
        contributor: AccountId,
        round_id: u32,
        grant_id: u64,
        amount: i128,
        current_ledger: u32,
        now: u64,
        transfers: &mut Vec<Transfer>,
    ) -> (r: Result<(), ContractError>)
        requires
            old(self).wf(),
        ensures
            final(self).wf(),
            final(self).rounds() == old(self).rounds(),
            final(self).pools() == old(self).pools(),
            final(self).counter() == old(self).counter(),
            ({
                let found = old(self).rounds().contains_key(round_id);
                let round = old(self).rounds()[round_id];
                let open = round.start_ledger <= current_ledger <= round.end_ledger && !round.finalized;
                let eligible = round.eligible_grant_ids@.contains(grant_id);
                &&& amount <= 0 ==> r == Err::<(), ContractError>(ContractError::InvalidInput)
                &&& amount > 0 && !found ==> r == Err::<(), ContractError>(ContractError::InvalidInput)
                &&& amount > 0 && found && !open ==> r == Err::<(), ContractError>(ContractError::InvalidState)
                &&& amount > 0 && found && open && !eligible ==> r == Err::<(), ContractError>(ContractError::InvalidInput)
                &&& r is Ok <==> amount > 0 && found && open && eligible
                &&& r is Err ==> final(self).contribution_list() == old(self).contribution_list() && final(transfers)@ == old(
                    transfers)@
                &&& r is Ok ==> {
                    let prev = match old(self).contribution(round_id, contributor, grant_id) {
                        Some(c) => c.amount as int,
                        None => 0,
                    };
                    &&& final(self).contribution(round_id, contributor, grant_id) == Some(MatchingContribution {
                        contributor,
                        grant_id,
                        amount: crate::arith::clamp_i128(prev + amount) as i128,
                        contributed_at: now,
                    })
                    &&& forall|rr: u32, cc: AccountId, gg: u64| !(rr == round_id && cc == contributor && gg == grant_id)
                        ==> #[trigger] final(self).contribution(rr, cc, gg) == old(self).contribution(rr, cc, gg)
                    &&& final(transfers)@ == old(transfers)@.push(Transfer { token: round.token, from: contributor,
                        to: CONTRACT_ACCOUNT, amount })
                }
            }),
    {
        if amount <= 0 {
            return Err(ContractError::InvalidInput);
        }
        let (start, end, finalized, token, eligible) = match self.rounds.get(&round_id) {
            Some(round) => (round.start_ledger, round.end_ledger, round.finalized, round.token, contains_id(
                &round.eligible_grant_ids,
                grant_id,
            )),
            None => return Err(ContractError::InvalidInput),
        };
        if current_ledger < start || current_ledger > end {
            return Err(ContractError::InvalidState);
        }
        if finalized {
            return Err(ContractError::InvalidState);
        }
        if !eligible {
            return Err(ContractError::InvalidInput);
        }
        let i = find_contribution(&self.contributions, round_id, contributor, grant_id);
        let ghost list0 = self.contributions@;
        if i < self.contributions.len() {
            let c = self.contributions[i];
            let updated = RoundContribution {
                round_id,
                contribution: MatchingContribution {
                    contributor,
                    grant_id,
                    amount: crate::arith::sat_add_i128(c.contribution.amount, amount),
                    contributed_at: now,
                },
            };
            self.contributions.set(i, updated);
            proof {
                lemma_lookup_first(list0, round_id, contributor, grant_id, i as int);
                assert forall|rr: u32, cc: AccountId, gg: u64| #[trigger] spec_lookup(self.contributions@, rr, cc, gg)
                    == if is_contribution_of(updated, rr, cc, gg) { Some(updated.contribution) } else { spec_lookup(list0, rr,
                    cc, gg) } by {
                    lemma_lookup_update(list0, i as int, updated, rr, cc, gg);
                }
            }
        } else {
            let rec = RoundContribution {
                round_id,
                contribution: MatchingContribution { contributor, grant_id, amount, contributed_at: now },
            };
            self.contributions.push(rec);
            proof {
                assert(crate::arith::clamp_i128(0 + amount) == amount);
                lemma_lookup_none(list0, round_id, contributor, grant_id);
                let l = self.contributions@;
                assert(l.drop_last() == list0);
                assert forall|rr: u32, cc: AccountId, gg: u64| #[trigger] spec_lookup(l, rr, cc, gg)
                    == if is_contribution_of(rec, rr, cc, gg) { Some(rec.contribution) } else { spec_lookup(list0, rr, cc, gg) } by {
                    assert(l.last() == rec);
                }
            }
        }
        transfers.push(Transfer { token, from: contributor, to: CONTRACT_ACCOUNT, amount });
        Ok(())
    }

    /// A grant's quadratic-funding score in a round, its direct contributions and its number
    /// of contributors: the square of the sum of the integer square roots of its
    /// contributions, and their sum and count (all saturating).
    pub fn compute_grant_qf_score(&self, round_id: u32, grant_id: u64) -> (r: (i128, i128, u32))
        ensures
            r == spec_qf_score(self.contribution_list(), round_id, grant_id),
    {
        let ghost list = self.contributions@;
        let mut sqrt_sum: i128 = 0;
        let mut total_direct: i128 = 0;
        let mut unique_contributors: u32 = 0;
        let mut i: usize = 0;
        while i < self.contributions.len()
            invariant
                list == self.contributions@,
                i <= list.len(),
                (sqrt_sum as int, total_direct as int, unique_contributors as int) == spec_qf_parts(list, round_id, grant_id,
                    i as int),
            decreases list.len() - i,
        {
            let c = self.contributions[i];
            if c.round_id == round_id && c.contribution.grant_id == grant_id {
                let root = isqrt(c.contribution.amount);
                sqrt_sum = crate::arith::sat_add_i128(sqrt_sum, root);
                total_direct = crate::arith::sat_add_i128(total_direct, c.contribution.amount);
                unique_contributors = unique_contributors.saturating_add(1);
            }
            i += 1;
        }
        let qf_score = crate::arith::sat_mul_i128(sqrt_sum, sqrt_sum);
        (qf_score, total_direct, unique_contributors)
    }

    /// Close a round after its end ledger and compute each eligible grant's allocation: its
    /// quadratic-funding score, and `score * pool / total score` of the matching pool when
    /// the total score is positive.
    pub fn compute_allocations(&mut self, round_id: u32, current_ledger: u32) -> (r: Result<Vec<MatchingAllocation>, ContractError>)
        requires
            old(self).wf(),
            old(self).rounds().contains_key(round_id) ==> spec_match_fits(
                old(self).contribution_list(),
                round_id,
                old(self).rounds()[round_id].eligible_grant_ids@,
                old(self).rounds()[round_id].matching_pool,
            ),
        ensures
            final(self).wf(),
            final(self).pools() == old(self).pools(),
            final(self).counter() == old(self).counter(),
            final(self).contribution_list() == old(self).contribution_list(),
            ({
                let found = old(self).rounds().contains_key(round_id);
                let round = old(self).rounds()[round_id];
                let expected = spec_allocations(old(self).contribution_list(), round_id, round.eligible_grant_ids@,
                    round.matching_pool);
                &&& !found ==> r == Err::<Vec<MatchingAllocation>, ContractError>(ContractError::InvalidInput)
                &&& found && round.finalized ==> r == Err::<Vec<MatchingAllocation>, ContractError>(ContractError::InvalidState)
                &&& found && !round.finalized && current_ledger <= round.end_ledger ==> r == Err::<
                    Vec<MatchingAllocation>,
                    ContractError,
                >(ContractError::InvalidState)
                &&& r is Ok <==> found && !round.finalized && current_ledger > round.end_ledger
                &&& r is Err ==> final(self).rounds() == old(self).rounds()
                &&& r is Ok ==> {
                    let nr = final(self).rounds()[round_id];
                    &&& r->Ok_0@ == expected
                    &&& final(self).rounds() == old(self).rounds().insert(round_id, nr)
                    &&& nr.allocations@ == expected && nr.finalized
                    &&& nr.id == round.id && nr.token == round.token && nr.matching_pool == round.matching_pool
                    &&& nr.start_ledger == round.start_ledger && nr.end_ledger == round.end_ledger
                    &&& nr.eligible_grant_ids@ == round.eligible_grant_ids@ && nr.distributed == round.distributed
                    &&& nr.created_by == round.created_by
                }
            }),
    {
        let mut round = match self.rounds.remove(&round_id) {
            Some(r) => r,
            None => {
                assert(self.rounds@ =~= old(self).rounds@);
                assert(self.rounds() == old(self).rounds());
                return Err(ContractError::InvalidInput);
            },
        };
        let ghost rounds0 = old(self).rounds@;
        if round.finalized || current_ledger <= round.end_ledger {
            self.rounds.insert(round_id, round);
            proof {
                assert(self.rounds@ =~= rounds0);
                assert(self.rounds() == old(self).rounds());
            }
            return Err(ContractError::InvalidState);
        }
        proof {
            assert(old(self).rounds().contains_key(round_id));
        }
        let ghost ids = round.eligible_grant_ids@;
        let ghost list = self.contributions@;
        let pool = round.matching_pool;
        assert(pool > 0);
        let mut allocations: Vec<MatchingAllocation> = Vec::new();
        let mut total_qf_score: i128 = 0;
        let mut i: usize = 0;
        while i < round.eligible_grant_ids.len()
            invariant
                ids == round.eligible_grant_ids@,
                list == self.contributions@,
                i <= ids.len(),
                total_qf_score == spec_total_qf(list, round_id, ids, i as int),
                allocations@ == ids.take(i as int).map_values(|g: u64| spec_allocation(list, round_id, g)),
            decreases ids.len() - i,
        {
            let grant_id = round.eligible_grant_ids[i];
            let (qf_score, direct_amount, unique_count) = self.compute_grant_qf_score(round_id, grant_id);
            total_qf_score = crate::arith::sat_add_i128(total_qf_score, qf_score);
            allocations.push(MatchingAllocation {
                grant_id,
                direct_contributions: direct_amount,
                match_amount: 0,
                unique_contributors: unique_count,
                qf_score,
            });
            proof {
                assert(ids.take(i + 1) == ids.take(i as int).push(grant_id));
                assert(ids.take(i + 1).map_values(|g: u64| spec_allocation(list, round_id, g)) =~= ids.take(
                    i as int,
                ).map_values(|g: u64| spec_allocation(list, round_id, g)).push(spec_allocation(list, round_id, grant_id)));
            }
            i += 1;
        }
        proof {
            assert(ids.take(ids.len() as int) == ids);
            lemma_total_qf_bounds(list, round_id, ids, ids.len() as int);
        }
        let ghost total = total_qf_score as int;
        let mut final_allocations: Vec<MatchingAllocation> = Vec::new();
        let mut j: usize = 0;
        while j < allocations.len()
            invariant
                ids == round.eligible_grant_ids@,
                pool == round.matching_pool,
                allocations@ == ids.map_values(|g: u64| spec_allocation(list, round_id, g)),
                total == total_qf_score,
                total == spec_total_qf(list, round_id, ids, ids.len() as int),
                total >= 0,
                pool > 0,
                spec_match_fits(list, round_id, ids, pool),
                j <= allocations@.len(),
                final_allocations@ == ids.take(j as int).map_values(
                    |g: u64| spec_matched(spec_allocation(list, round_id, g), pool, total),
                ),
            decreases allocations@.len() - j,
        {
            let a = allocations[j];
            assert(a == spec_allocation(list, round_id, ids[j as int]));
            let match_amount: i128 = if total_qf_score > 0 {
                assert(i128::MIN <= spec_qf_score(list, round_id, ids[j as int]).0 * pool <= i128::MAX);
                (a.qf_score * pool) / total_qf_score
            } else {
                0
            };
            proof {
                lemma_qf_parts_bounds(list, round_id, ids[j as int], list.len() as int);
                let p = spec_qf_parts(list, round_id, ids[j as int], list.len() as int);
                assert(p.0 * p.0 >= 0) by (nonlinear_arith) requires p.0 >= 0;
                assert(a.qf_score >= 0);
            }
            final_allocations.push(MatchingAllocation { match_amount, ..a });
            proof {
                assert(ids.take(j + 1) == ids.take(j as int).push(ids[j as int]));
                assert(ids.take(j + 1).map_values(|g: u64| spec_matched(spec_allocation(list, round_id, g), pool, total))
                    =~= ids.take(j as int).map_values(|g: u64| spec_matched(spec_allocation(list, round_id, g), pool, total)).push(
                    spec_matched(spec_allocation(list, round_id, ids[j as int]), pool, total)));
            }
            j += 1;
        }
        proof {
            assert(ids.take(ids.len() as int) == ids);
            assert(final_allocations@ =~= spec_allocations(list, round_id, ids, pool));
        }
        let result = copy_allocations(&final_allocations);
        round.allocations = final_allocations;
        round.finalized = true;
        self.rounds.insert(round_id, round);
        proof {
            assert forall|id: u32| #[trigger] self.rounds().contains_key(id) implies self.rounds()[id].matching_pool > 0 && (
                !self.rounds()[id].finalized ==> self.rounds()[id].allocations@.len() == 0) by {
                if id != round_id {
                    assert(old(self).rounds().contains_key(id));
                }
            }
            assert(self.rounds@ =~= rounds0.insert(round_id, self.rounds@[round_id]));
        }
        Ok(result)
    }

    /// Pay each positive match amount of a finalized round into the grant's escrow (a failed
    /// deposit is skipped) and mark the round distributed. Earlier transfers stay as they
    /// were; a round that matches nothing moves nothing.
    pub fn distribute(
        &mut self,
        round_id: u32,
        escrow: &mut EscrowBook,
        grants: &mut GrantBook,
        now: u64,
        transfers: &mut Vec<Transfer>,
    ) -> (r: Result<(), ContractError>)
        requires
            old(self).wf(),
            old(escrow).wf(),
        ensures
            final(self).wf(),
            final(self).pools() == old(self).pools(),
            final(self).counter() == old(self).counter(),
            final(self).contribution_list() == old(self).contribution_list(),
            final(escrow).wf(),
            final(grants).counter() == old(grants).counter(),
            final(transfers)@.len() >= old(transfers)@.len(),
            final(transfers)@.subrange(0, old(transfers)@.len() as int) == old(transfers)@,
            ({
                let found = old(self).rounds().contains_key(round_id);
                let round = old(self).rounds()[round_id];
                let moves = exists|k: int| 0 <= k < round.allocations@.len() && #[trigger] round.allocations@[k].match_amount > 0;
                &&& (r is Err || !moves) ==> final(escrow).accounts() == old(escrow).accounts() && final(grants).grants() == old(
                    grants).grants() && final(transfers)@ == old(transfers)@
                &&& !found ==> r == Err::<(), ContractError>(ContractError::InvalidInput)
                &&& found && (!round.finalized || round.distributed) ==> r == Err::<(), ContractError>(ContractError::InvalidState)
                &&& r is Ok <==> found && round.finalized && !round.distributed
                &&& r is Err ==> final(self).rounds() == old(self).rounds()
                &&& r is Ok ==> {
                    let nr = final(self).rounds()[round_id];
                    &&& final(self).rounds() == old(self).rounds().insert(round_id, nr)
                    &&& nr.distributed && nr.finalized && nr.allocations@ == round.allocations@
                    &&& nr.id == round.id && nr.token == round.token && nr.matching_pool == round.matching_pool
                    &&& nr.start_ledger == round.start_ledger && nr.end_ledger == round.end_ledger
                    &&& nr.eligible_grant_ids@ == round.eligible_grant_ids@ && nr.created_by == round.created_by
                }
            }),
    {
        let mut round = match self.rounds.remove(&round_id) {
            Some(r) => r,
            None => {
                assert(self.rounds@ =~= old(self).rounds@);
                assert(self.rounds() == old(self).rounds());
                return Err(ContractError::InvalidInput);
            },
        };
        let ghost rounds0 = old(self).rounds@;
        if !round.finalized || round.distributed {
            self.rounds.insert(round_id, round);
            proof {
                assert(self.rounds@ =~= rounds0);
                assert(self.rounds() == old(self).rounds());
            }
            return Err(ContractError::InvalidState);
        }
        let ghost allocs = round.allocations@;
        proof {
            assert(old(self).rounds().contains_key(round_id));
        }
        let mut i: usize = 0;
        while i < round.allocations.len()
            invariant
                allocs == round.allocations@,
                i <= allocs.len(),
                escrow.wf(),
                grants.counter() == old(grants).counter(),
                transfers@.len() >= old(transfers)@.len(),
                transfers@.subrange(0, old(transfers)@.len() as int) == old(transfers)@,
                (forall|k: int| 0 <= k < i ==> #[trigger] allocs[k].match_amount <= 0) ==> escrow.accounts() == old(
                    escrow).accounts() && grants.grants() == old(grants).grants() && transfers@ == old(transfers)@,
            decreases allocs.len() - i,
        {
            let allocation = round.allocations[i];
            let ghost t1 = transfers@;
            if allocation.match_amount > 0 {
                let _ = crate::escrow::deposit(escrow, grants, allocation.grant_id, CONTRACT_ACCOUNT, allocation.match_amount,
                    now, transfers);
                proof {
                    if transfers@.len() > t1.len() {
                        assert(transfers@.subrange(0, t1.len() as int) == t1);
                        assert(transfers@.subrange(0, old(transfers)@.len() as int) == t1.subrange(0, old(transfers)@.len() as int));
                    }
                }
            }
            proof {
                if forall|k: int| 0 <= k < i + 1 ==> #[trigger] allocs[k].match_amount <= 0 {
                    assert(allocs[i as int].match_amount <= 0);
                }
            }
            i += 1;
        }
        proof {
            if !(exists|k: int| 0 <= k < allocs.len() && #[trigger] allocs[k].match_amount > 0) {
                assert forall|k: int| 0 <= k < allocs.len() implies #[trigger] allocs[k].match_amount <= 0 by {}
            }
        }
        round.distributed = true;
        self.rounds.insert(round_id, round);
        proof {
            assert forall|id: u32| #[trigger] self.rounds().contains_key(id) implies self.rounds()[id].matching_pool > 0 && (
                !self.rounds()[id].finalized ==> self.rounds()[id].allocations@.len() == 0) by {
                if id != round_id {
                    assert(old(self).rounds().contains_key(id));
                }
            }
            assert(self.rounds@ =~= rounds0.insert(round_id, self.rounds@[round_id]));
        }
        Ok(())
    }

    /// A round, by id.
    pub fn get_round(&self, round_id: u32) -> (r: Result<&MatchingRound, ContractError>)
        ensures
            self.rounds().contains_key(round_id) ==> r == Ok::<&MatchingRound, ContractError>(&self.rounds()[round_id]),
            !self.rounds().contains_key(round_id) ==> r == Err::<&MatchingRound, ContractError>(ContractError::InvalidInput),
    {
        match self.rounds.get(&round_id) {
            Some(r) => Ok(r),
            None => Err(ContractError::InvalidInput),
        }
    }

    /// A contributor's contribution to a grant within a round.
    pub fn get_contribution(&self, round_id: u32, contributor: AccountId, grant_id: u64) -> (r: Option<MatchingContribution>)
        ensures
            r == self.contribution(round_id, contributor, grant_id),
    {
        let i = find_contribution(&self.contributions, round_id, contributor, grant_id);
        if i < self.contributions.len() {
            Some(self.contributions[i].contribution)
        } else {
            None
        }
    }

    /// The allocations computed for a round (empty for an unknown round).
    pub fn get_allocations(&self, round_id: u32) -> (r: Vec<MatchingAllocation>)
        ensures
            r@ == if self.rounds().contains_key(round_id) { self.rounds()[round_id].allocations@ } else {
                Seq::<MatchingAllocation>::empty() },
    {
        match self.rounds.get(&round_id) {
            Some(round) => {
                let mut out: Vec<MatchingAllocation> = Vec::new();
                let mut j: usize = 0;
                while j < round.allocations.len()
                    invariant
                        j <= round.allocations@.len(),
                        out@ == round.allocations@.take(j as int),
                    decreases round.allocations@.len() - j,
                {
                    out.push(round.allocations[j]);
                    proof {
                        assert(round.allocations@.take(j + 1) == round.allocations@.take(j as int).push(round.allocations@[j as int]));
                    }
                    j += 1;
                }
                proof {
                    assert(round.allocations@.take(round.allocations@.len() as int) == round.allocations@);
                }
                out
            },
            None => Vec::new(),
        }
    }
}

/// A copy of a list of allocations.
fn copy_allocations(v: &Vec<MatchingAllocation>) -> (r: Vec<MatchingAllocation>)
    ensures
        r@ == v@,
{
    let mut out: Vec<MatchingAllocation> = Vec::new();
    let mut i: usize = 0;
    while i < v.len()
        invariant
            i <= v@.len(),
            out@ == v@.take(i as int),
        decreases v@.len() - i,
    {
        out.push(v[i]);
        proof {
            assert(v@.take(i + 1) == v@.take(i as int).push(v@[i as int]));
        }
        i += 1;
    }
    proof {
        assert(v@.take(v@.len() as int) == v@);
    }
    out
}

/// Whether `id` occurs in `ids`.
pub fn contains_id(ids: &Vec<u64>, id: u64) -> (r: bool)
    ensures
        r == ids@.contains(id),
{
    let mut i: usize = 0;
    while i < ids.len()
        invariant
            i <= ids@.len(),
            forall|j: int| 0 <= j < i ==> ids@[j] != id,
        decreases ids@.len() - i,
    {
        if ids[i] == id {
            return true;
        }
        i += 1;
    }
    false
}

/// Index of the first record of `contributor` to `grant_id` in `round_id`, or `list.len()`.
fn find_contribution(list: &Vec<RoundContribution>, round_id: u32, contributor: AccountId, grant_id: u64) -> (r: usize)
    ensures
        r <= list@.len(),
        r < list@.len() ==> is_contribution_of(list@[r as int], round_id, contributor, grant_id),
        forall|j: int| 0 <= j < r ==> !is_contribution_of(#[trigger] list@[j], round_id, contributor, grant_id),
        r < list@.len() ==> spec_lookup(list@, round_id, contributor, grant_id) == Some(list@[r as int].contribution),
        r == list@.len() ==> spec_lookup(list@, round_id, contributor, grant_id) is None,
{
    let mut i: usize = 0;
    while i < list.len()
        invariant
            i <= list@.len(),
            forall|j: int| 0 <= j < i ==> !is_contribution_of(#[trigger] list@[j], round_id, contributor, grant_id),
        decreases list@.len() - i,
    {
        let c = list[i];
        if c.round_id == round_id && c.contribution.contributor == contributor && c.contribution.grant_id == grant_id {
            proof {
                lemma_lookup_first(list@, round_id, contributor, grant_id, i as int);
            }
            return i;
        }
        i += 1;
    }
    proof {
        lemma_lookup_none(list@, round_id, contributor, grant_id);
    }
    i
}

} // verus!
