use vstd::prelude::*;
use std::collections::HashMap;

use crate::arith::{clamp_i128, clamp_u32, clamp_u64, div_trunc};
use crate::constants::CONTRACT_ACCOUNT;
use crate::errors::ContractError;
use crate::keys::Transfer;
use crate::types::AccountId;

verus! {

/// The payload of the event published when a panel is drawn for a case.
#[derive(Clone, Copy, Debug, PartialEq, Eq, Structural)]
pub struct PanelAssigned {
    pub case_id: u32,
    pub dispute_id: u32,
    pub panel_size: u32,
}

/// The payload of the event published when a case is closed with its outcome.
#[derive(Clone, Copy, Debug, PartialEq, Eq, Structural)]
pub struct CaseFinalized {
    pub case_id: u32,
    pub outcome: bool,
}

/// The payload of the event published when a case's stakes are settled.
#[derive(Clone, Copy, Debug, PartialEq, Eq, Structural)]
pub struct RewardsSettled {
    pub case_id: u32,
    pub total_slashed: i128,
}


broadcast use vstd::std_specs::hash::group_hash_axioms;

/// Voting window for an arbitration case, in seconds (about a day).
pub const ARBITRATION_VOTING_WINDOW: u64 = 86_400;
/// Share of a minority arbiter's stake that is slashed and redistributed (10%).
pub const ARBITER_SLASH_BPS: u32 = 1_000;

#[derive(Clone, Copy, Debug, PartialEq, Eq, Structural)]
pub struct Arbiter {
    pub address: AccountId,
    pub stake: i128,
    pub cases_decided: u32,
    pub cases_correct: u32,
    pub is_active: bool,
    pub joined_at: u64,
}

#[derive(Clone, Copy, Debug, PartialEq, Eq, Structural)]
pub struct ArbiterVote {
    pub arbiter: AccountId,
    pub favor_contributor: bool,
    pub confidence: u32,
    pub voted_at: u64,
}

#[derive(Clone, Debug)]
pub struct ArbitrationCase {
    pub id: u32,
    pub dispute_id: u32,
    pub panel: Vec<AccountId>,
    pub votes: Vec<ArbiterVote>,
    pub outcome: Option<bool>,
    pub finalized: bool,
    pub assigned_at: u64,
    pub deadline: u64,
}

/// The arbitration pool: arbiters and their stakes, the active pool in joining order, the
/// pool's single staking token, the open-case count of each arbiter, and the cases.
pub struct ArbitrationPool {
    arbiters: HashMap<u64, Arbiter>,
    pool: Vec<AccountId>,
    pool_token: Option<AccountId>,
    active_cases: HashMap<u64, u32>,
    cases: HashMap<u32, ArbitrationCase>,
    case_counter: u32,
    case_by_dispute: HashMap<u32, u32>,
    settled: HashMap<u32, bool>,
}

/// The arbiters who voted, in voting order.
pub open spec fn voters(votes: Seq<ArbiterVote>) -> Seq<AccountId> {
    votes.map_values(|v: ArbiterVote| v.arbiter)
}

impl ArbitrationPool {
    pub closed spec fn arbiters(&self) -> Map<u64, Arbiter> {
        self.arbiters@
    }

    pub closed spec fn pool(&self) -> Seq<AccountId> {
        self.pool@
    }

    pub closed spec fn pool_token(&self) -> Option<AccountId> {
        self.pool_token
    }

    /// Number of open cases whose panel holds `a`.
    pub closed spec fn active_cases(&self, a: AccountId) -> u32 {
        if self.active_cases@.contains_key(a) { self.active_cases@[a] } else { 0 }
    }

    pub closed spec fn cases(&self) -> Map<u32, ArbitrationCase> {
        self.cases@
    }

    pub closed spec fn case_counter(&self) -> u32 {
        self.case_counter
    }

    /// The arbitration case opened for a dispute, if any.
    pub closed spec fn case_of_dispute(&self, dispute_id: u32) -> Option<u32> {
        if self.case_by_dispute@.contains_key(dispute_id) { Some(self.case_by_dispute@[dispute_id]) } else { None }
    }

    pub closed spec fn is_settled(&self, case_id: u32) -> bool {
        self.settled@.contains_key(case_id) && self.settled@[case_id]
    }

    /// No arbiter votes twice in a case, sits twice on a panel, or is listed twice in the pool.
    pub open spec fn wf(&self) -> bool {
        &&& forall|id: u32| #[trigger] self.cases().contains_key(id) ==> voters(self.cases()[id].votes@).no_duplicates()
            && self.cases()[id].panel@.no_duplicates()
        &&& self.pool().no_duplicates()
    }

    pub fn new() -> (p: ArbitrationPool)
        ensures
            p.wf(),
            p.arbiters() == Map::<u64, Arbiter>::empty(),
            p.pool() == Seq::<AccountId>::empty(),
            p.pool_token() is None,
            p.cases() == Map::<u32, ArbitrationCase>::empty(),
            p.case_counter() == 0,
            forall|k: u32| !#[trigger] p.is_settled(k),
            forall|a: AccountId| #[trigger] p.active_cases(a) == 0,
    {
        ArbitrationPool {
            arbiters: HashMap::new(),
            pool: Vec::new(),
            pool_token: None,
            active_cases: HashMap::new(),
            cases: HashMap::new(),
            case_counter: 0,
            case_by_dispute: HashMap::new(),
            settled: HashMap::new(),
        }
    }

    pub fn get_arbiter(&self, address: AccountId) -> (r: Option<Arbiter>)
        ensures
            r == (if self.arbiters().contains_key(address) { Some(self.arbiters()[address]) } else { None::<Arbiter> }),
    {
        match self.arbiters.get(&address) {
            Some(a) => Some(*a),
            None => None,
        }
    }

    /// The number of cases opened so far (the id of the latest case).
    pub fn case_count(&self) -> (r: u32)
        ensures
            r == self.case_counter(),
    {
        self.case_counter
    }

    /// The pooled arbiters, in joining order (a panel is drawn from a shuffle of them).
    pub fn pool_members(&self) -> (r: Vec<AccountId>)
        ensures
            r@ == self.pool(),
    {
        let mut out: Vec<AccountId> = Vec::new();
        let mut i: usize = 0;
        while i < self.pool.len()
            invariant
                i <= self.pool@.len(),
                out@ == self.pool@.take(i as int),
            decreases self.pool@.len() - i,
        {
            out.push(self.pool[i]);
            proof {
                assert(self.pool@.take(i + 1) == self.pool@.take(i as int).push(self.pool@[i as int]));
            }
            i += 1;
        }
        proof {
            assert(self.pool@.take(self.pool@.len() as int) == self.pool@);
        }
        out
    }
}

/// The stake slashed from a minority arbiter: 10% of its stake, rounded toward zero.
pub open spec fn spec_slash(stake: int) -> int {
    div_trunc(stake * 1000, 10_000)
}

/// Confidence-weight of the majority votes among the first `n` (of arbiters on record).
pub open spec fn spec_majority_weight(votes: Seq<ArbiterVote>, outcome: bool, arbs: Map<u64, Arbiter>, n: int) -> int
    decreases n,
{
    if n <= 0 {
        0
    } else {
        let w = spec_majority_weight(votes, outcome, arbs, n - 1);
        let v = votes[n - 1];
        if v.favor_contributor == outcome && arbs.contains_key(v.arbiter) { clamp_u64(w + v.confidence) } else { w }
    }
}

/// Stake slashed from the minority among the first `n` votes.
pub open spec fn spec_total_slashed(votes: Seq<ArbiterVote>, outcome: bool, arbs: Map<u64, Arbiter>, n: int) -> int
    decreases n,
{
    if n <= 0 {
        0
    } else {
        let t = spec_total_slashed(votes, outcome, arbs, n - 1);
        let v = votes[n - 1];
        if v.favor_contributor != outcome && arbs.contains_key(v.arbiter) && spec_slash(arbs[v.arbiter].stake as int) > 0 {
            clamp_i128(t + spec_slash(arbs[v.arbiter].stake as int))
        } else {
            t
        }
    }
}

/// Index of the last majority vote among the first `n`, or -1.
pub open spec fn spec_last_majority(votes: Seq<ArbiterVote>, outcome: bool, n: int) -> int
    decreases n,
{
    if n <= 0 {
        -1
    } else if votes[n - 1].favor_contributor == outcome {
        n - 1
    } else {
        spec_last_majority(votes, outcome, n - 1)
    }
}

/// The share of the slashed pot due to majority vote `i`: in proportion to its confidence,
/// the last majority vote taking what is left.
pub open spec fn spec_share(votes: Seq<ArbiterVote>, outcome: bool, total: int, weight: int, i: int, distributed: int) -> int {
    if i == spec_last_majority(votes, outcome, votes.len() as int) {
        total - distributed
    } else {
        div_trunc(total * votes[i].confidence, weight)
    }
}

/// Of the slashed pot, what has been paid to the majority among the first `n` votes.
pub open spec fn spec_shares_paid(votes: Seq<ArbiterVote>, outcome: bool, arbs: Map<u64, Arbiter>, total: int, weight: int,
    n: int) -> int
    decreases n,
{
    if n <= 0 {
        0
    } else {
        let d = spec_shares_paid(votes, outcome, arbs, total, weight, n - 1);
        let v = votes[n - 1];
        let s = spec_share(votes, outcome, total, weight, n - 1, d);
        if total > 0 && weight > 0 && v.favor_contributor == outcome && s > 0 && arbs.contains_key(v.arbiter) {
            clamp_i128(d + s)
        } else {
            d
        }
    }
}

pub open spec fn spec_share_at(votes: Seq<ArbiterVote>, outcome: bool, arbs: Map<u64, Arbiter>, total: int, weight: int,
    i: int) -> int {
    spec_share(votes, outcome, total, weight, i, spec_shares_paid(votes, outcome, arbs, total, weight, i))
}

/// The stake of the arbiter of vote `i` after settlement: slashed when in the minority,
/// topped up by its share of the pot when in the majority.
pub open spec fn spec_stake_after(votes: Seq<ArbiterVote>, outcome: bool, arbs: Map<u64, Arbiter>, i: int) -> int {
    let v = votes[i];
    let stake = arbs[v.arbiter].stake as int;
    let total = spec_total_slashed(votes, outcome, arbs, votes.len() as int);
    let weight = spec_majority_weight(votes, outcome, arbs, votes.len() as int);
    if v.favor_contributor != outcome {
        if spec_slash(stake) > 0 { stake - spec_slash(stake) } else { stake }
    } else if total > 0 && weight > 0 {
        let sh = spec_share_at(votes, outcome, arbs, total, weight, i);
        if sh > 0 { stake + sh } else { stake }
    } else {
        stake
    }
}

/// The arbiter record of vote `i` after settlement.
pub open spec fn spec_arbiter_after(votes: Seq<ArbiterVote>, outcome: bool, arbs: Map<u64, Arbiter>, i: int) -> Arbiter {
    let v = votes[i];
    let a = arbs[v.arbiter];
    Arbiter {
        stake: spec_stake_after(votes, outcome, arbs, i) as i128,
        cases_decided: clamp_u32(a.cases_decided + 1) as u32,
        cases_correct: if v.favor_contributor == outcome { clamp_u32(a.cases_correct + 1) as u32 } else { a.cases_correct },
        ..a
    }
}

/// Settlement arithmetic stays within `i128`.
pub open spec fn spec_settle_fits(votes: Seq<ArbiterVote>, outcome: bool, arbs: Map<u64, Arbiter>) -> bool {
    let total = spec_total_slashed(votes, outcome, arbs, votes.len() as int);
    let weight = spec_majority_weight(votes, outcome, arbs, votes.len() as int);
    &&& forall|i: int| 0 <= i < votes.len() && votes[i].favor_contributor != outcome && arbs.contains_key(#[trigger] votes[i].arbiter)
        ==> i128::MIN <= arbs[votes[i].arbiter].stake * 1000 <= i128::MAX
    &&& total > 0 && weight > 0 ==> forall|i: int| 0 <= i < votes.len() && #[trigger] votes[i].favor_contributor == outcome
        ==> (i != spec_last_majority(votes, outcome, votes.len() as int) ==> i128::MIN <= total * votes[i].confidence <= i128::MAX)
            && (arbs.contains_key(votes[i].arbiter) ==> spec_stake_after(votes, outcome, arbs, i) <= i128::MAX)
}

impl ArbitrationPool {
    /// Settle a finalized case: slash 10% of each minority arbiter's stake and share the
    /// slashed pot among the majority in proportion to their confidence.
    pub fn settle_rewards(&mut self, case_id: u32) -> (r: Result<RewardsSettled, ContractError>)
        requires
            old(self).wf(),
        ensures
            final(self).wf(),
            final(self).cases() == old(self).cases(),
            final(self).pool() == old(self).pool(),
            final(self).pool_token() == old(self).pool_token(),
            final(self).case_counter() == old(self).case_counter(),
            forall|a: AccountId| #[trigger] final(self).active_cases(a) == old(self).active_cases(a),
            ({
                let found = old(self).cases().contains_key(case_id);
                let c = old(self).cases()[case_id];
                let votes = c.votes@;
                let outcome = c.outcome->0;
                let arbs = old(self).arbiters();
                &&& !found ==> r == Err::<RewardsSettled, ContractError>(ContractError::ArbitrationCaseNotFound)
                &&& found && !c.finalized ==> r == Err::<RewardsSettled, ContractError>(ContractError::CaseNotFinalized)
                &&& found && c.finalized && old(self).is_settled(case_id) ==> r == Err::<RewardsSettled, ContractError>(ContractError::InvalidState)
                &&& found && c.finalized && !old(self).is_settled(case_id) && c.outcome is None ==> r == Err::<RewardsSettled, ContractError>(
                    ContractError::CaseNotFinalized)
                &&& found && c.finalized && !old(self).is_settled(case_id) && c.outcome is Some && !spec_settle_fits(votes,
                    outcome, arbs) ==> r == Err::<RewardsSettled, ContractError>(ContractError::InvalidInput)
                &&& r is Ok <==> found && c.finalized && !old(self).is_settled(case_id) && c.outcome is Some && spec_settle_fits(
                    votes, outcome, arbs)
                &&& r is Err ==> final(self).arbiters() == old(self).arbiters()
                    && (forall|k: u32| #[trigger] final(self).is_settled(k) == old(self).is_settled(k))
                &&& r is Ok ==> {
                    &&& r->Ok_0 == (RewardsSettled { case_id, total_slashed: spec_total_slashed(votes, outcome, arbs, votes.len() as int) as i128 })
                    &&& forall|k: u32| #[trigger] final(self).is_settled(k) == (k == case_id || old(self).is_settled(k))
                    &&& final(self).arbiters().dom() == arbs.dom()
                    &&& forall|i: int| 0 <= i < votes.len() && arbs.contains_key(#[trigger] votes[i].arbiter) ==>
                        final(self).arbiters()[votes[i].arbiter] == spec_arbiter_after(votes, outcome, arbs, i)
                    &&& forall|a: AccountId| !voters(votes).contains(a) && arbs.contains_key(a) ==> #[trigger] final(self).arbiters()[a]
                        == arbs[a]
                }
            }),
    {
        let (votes, outcome) = {
            let case = match self.cases.get(&case_id) {
                Some(c) => c,
                None => return Err(ContractError::ArbitrationCaseNotFound),
            };
            if !case.finalized {
                return Err(ContractError::CaseNotFinalized);
            }
            let settled = match self.settled.get(&case_id) {
                Some(b) => *b,
                None => false,
            };
            if settled {
                return Err(ContractError::InvalidState);
            }
            let outcome = match case.outcome {
                Some(o) => o,
                None => return Err(ContractError::CaseNotFinalized),
            };
            (case.votes.clone(), outcome)
        };
        let ghost arbs = self.arbiters@;
        let ghost c = old(self).cases()[case_id];
        assert(votes@ == c.votes@);
        assert(voters(votes@).no_duplicates()) by { assert(old(self).cases().contains_key(case_id)); }
        let n = votes.len();

        // First pass: the slashed pot, the majority weight, and the last majority vote.
        let mut weight: u64 = 0;
        let mut total: i128 = 0;
        let mut last: usize = 0;
        let mut has_last = false;
        let mut i: usize = 0;
        while i < n
            invariant
                n == votes.len(),
                i <= n,
                arbs == self.arbiters@,
                votes@ == c.votes@,
                self.cases@ == old(self).cases@,
                self.pool@ == old(self).pool@,
                self.pool_token == old(self).pool_token,
                self.active_cases@ == old(self).active_cases@,
                self.settled@ == old(self).settled@,
                self.case_counter == old(self).case_counter,
                old(self).wf(),
                old(self).cases().contains_key(case_id),
                c == old(self).cases()[case_id],
                c.finalized,
                !old(self).is_settled(case_id),
                c.outcome == Some(outcome),
                weight == spec_majority_weight(votes@, outcome, arbs, i as int),
                total == spec_total_slashed(votes@, outcome, arbs, i as int),
                spec_last_majority(votes@, outcome, i as int) == if has_last { last as int } else { -1 },
                forall|j: int| 0 <= j < i && votes@[j].favor_contributor != outcome && arbs.contains_key(#[trigger] votes@[j].arbiter)
                    ==> i128::MIN <= arbs[votes@[j].arbiter].stake * 1000 <= i128::MAX,
            decreases n - i,
        {
            let v = votes[i];
            if v.favor_contributor == outcome {
                last = i;
                has_last = true;
            }
            match self.arbiters.get(&v.arbiter) {
                Some(a) => {
                    if v.favor_contributor == outcome {
                        weight = weight.saturating_add(v.confidence as u64);
                    } else {
                        let p = match a.stake.checked_mul(1000) {
                            Some(p) => p,
                            None => {
                                proof {
                                    assert(!spec_settle_fits(votes@, outcome, arbs)) by {
                                        assert(votes@[i as int].favor_contributor != outcome && arbs.contains_key(votes@[i as int].arbiter));
                                    }
                                }
                                return Err(ContractError::InvalidInput);
                            },
                        };
                        let slash = p / 10_000;
                        assert(slash == spec_slash(a.stake as int));
                        if slash > 0 {
                            total = crate::arith::sat_add_i128(total, slash);
                        }
                    }
                },
                None => {},
            }
            i += 1;
        }
        let ghost vs = votes@;
        assert(total == spec_total_slashed(vs, outcome, arbs, vs.len() as int));
        assert(weight == spec_majority_weight(vs, outcome, arbs, vs.len() as int));

        // Second pass: every updated arbiter record, checked for overflow before anything is written.
        let mut updates: Vec<Option<Arbiter>> = Vec::new();
        let mut distributed: i128 = 0;
        let mut i: usize = 0;
        while i < n
            invariant
                n == votes.len(),
                i <= n,
                arbs == self.arbiters@,
                votes@ == vs,
                self.cases@ == old(self).cases@,
                self.pool@ == old(self).pool@,
                self.pool_token == old(self).pool_token,
                self.active_cases@ == old(self).active_cases@,
                self.settled@ == old(self).settled@,
                self.case_counter == old(self).case_counter,
                old(self).wf(),
                old(self).cases().contains_key(case_id),
                c == old(self).cases()[case_id],
                c.finalized,
                !old(self).is_settled(case_id),
                c.outcome == Some(outcome),
                vs == c.votes@,
                total == spec_total_slashed(vs, outcome, arbs, n as int),
                weight == spec_majority_weight(vs, outcome, arbs, n as int),
                spec_last_majority(vs, outcome, n as int) == if has_last { last as int } else { -1 },
                forall|j: int| 0 <= j < n && vs[j].favor_contributor != outcome && arbs.contains_key(#[trigger] vs[j].arbiter)
                    ==> i128::MIN <= arbs[vs[j].arbiter].stake * 1000 <= i128::MAX,
                distributed == spec_shares_paid(vs, outcome, arbs, total as int, weight as int, i as int),
                distributed >= 0,
                updates.len() == i,
                forall|j: int| 0 <= j < i ==> #[trigger] updates@[j] == if arbs.contains_key(vs[j].arbiter) {
                    Some(spec_arbiter_after(vs, outcome, arbs, j)) } else { None },
                total > 0 && weight > 0 ==> forall|j: int| 0 <= j < i && #[trigger] vs[j].favor_contributor == outcome
                    ==> (j != spec_last_majority(vs, outcome, n as int) ==> i128::MIN <= total * vs[j].confidence <= i128::MAX)
                        && (arbs.contains_key(vs[j].arbiter) ==> spec_stake_after(vs, outcome, arbs, j) <= i128::MAX),
            decreases n - i,
        {
            let v = votes[i];
            let majority = v.favor_contributor == outcome;
            let share: i128 = if majority && total > 0 && weight > 0 {
                if has_last && i == last {
                    total - distributed
                } else {
                    match total.checked_mul(v.confidence as i128) {
                        Some(p) => p / (weight as i128),
                        None => {
                            proof {
                                assert(!spec_settle_fits(vs, outcome, arbs)) by {
                                    assert(vs[i as int].favor_contributor == outcome);
                                }
                            }
                            return Err(ContractError::InvalidInput);
                        },
                    }
                }
            } else {
                0
            };
            proof {
                if majority && total > 0 && weight > 0 {
                    assert(share == spec_share(vs, outcome, total as int, weight as int, i as int, distributed as int));
                    assert(share == spec_share_at(vs, outcome, arbs, total as int, weight as int, i as int));
                }
            }
            let upd: Option<Arbiter> = match self.arbiters.get(&v.arbiter) {
                Some(a) => {
                    let new_stake: i128 = if !majority {
                        let slash = a.stake * 1000 / 10_000;
                        if slash > 0 { a.stake - slash } else { a.stake }
                    } else if total > 0 && weight > 0 && share > 0 {
                        match a.stake.checked_add(share) {
                            Some(x) => x,
                            None => {
                                proof {
                                    assert(!spec_settle_fits(vs, outcome, arbs)) by {
                                        assert(vs[i as int].favor_contributor == outcome);
                                        assert(spec_stake_after(vs, outcome, arbs, i as int) == a.stake + share);
                                    }
                                }
                                return Err(ContractError::InvalidInput);
                            },
                        }
                    } else {
                        a.stake
                    };
                    assert(new_stake == spec_stake_after(vs, outcome, arbs, i as int));
                    Some(Arbiter {
                        stake: new_stake,
                        cases_decided: a.cases_decided.saturating_add(1),
                        cases_correct: if majority { a.cases_correct.saturating_add(1) } else { a.cases_correct },
                        ..*a
                    })
                },
                None => None,
            };
            if majority && share > 0 && upd.is_some() {
                distributed = crate::arith::sat_add_i128(distributed, share);
            }
            updates.push(upd);
            i += 1;
        }
        assert(spec_settle_fits(vs, outcome, arbs));

        // Third pass: write the records.
        let mut i: usize = 0;
        while i < n
            invariant
                n == votes.len(),
                i <= n,
                votes@ == vs,
                voters(vs).no_duplicates(),
                updates.len() == n,
                forall|j: int| 0 <= j < n ==> #[trigger] updates@[j] == if arbs.contains_key(vs[j].arbiter) {
                    Some(spec_arbiter_after(vs, outcome, arbs, j)) } else { None },
                self.arbiters@.dom() == arbs.dom(),
                forall|j: int| 0 <= j < i && arbs.contains_key(#[trigger] vs[j].arbiter) ==> self.arbiters@[vs[j].arbiter]
                    == spec_arbiter_after(vs, outcome, arbs, j),
                forall|a: AccountId| !(exists|j: int| 0 <= j < i && vs[j].arbiter == a) && arbs.contains_key(a)
                    ==> #[trigger] self.arbiters@[a] == arbs[a],
                self.cases@ == old(self).cases@,
                self.pool@ == old(self).pool@,
                self.pool_token == old(self).pool_token,
                self.active_cases@ == old(self).active_cases@,
                self.settled@ == old(self).settled@,
                self.case_counter == old(self).case_counter,
                old(self).wf(),
                old(self).cases().contains_key(case_id),
                c == old(self).cases()[case_id],
                c.finalized,
                !old(self).is_settled(case_id),
                c.outcome == Some(outcome),
            decreases n - i,
        {
            match updates[i] {
                Some(a) => {
                    let addr = votes[i].arbiter;
                    self.arbiters.insert(addr, a);
                    proof {
                        assert forall|j: int| 0 <= j < i + 1 && arbs.contains_key(#[trigger] vs[j].arbiter) implies
                            self.arbiters@[vs[j].arbiter] == spec_arbiter_after(vs, outcome, arbs, j) by {
                            if j < i {
                                assert(voters(vs)[j] != voters(vs)[i as int]);
                            }
                        }
                        assert forall|b: AccountId| !(exists|j: int| 0 <= j < i + 1 && vs[j].arbiter == b) && arbs.contains_key(b)
                            implies #[trigger] self.arbiters@[b] == arbs[b] by {
                            assert(vs[i as int].arbiter != b);
                        }
                    }
                },
                None => {
                    proof {
                        assert forall|b: AccountId| !(exists|j: int| 0 <= j < i + 1 && vs[j].arbiter == b) && arbs.contains_key(b)
                            implies #[trigger] self.arbiters@[b] == arbs[b] by {
                            assert(vs[i as int].arbiter != b);
                        }
                    }
                },
            }
            i += 1;
        }
        self.settled.insert(case_id, true);
        proof {
            assert forall|a: AccountId| !voters(vs).contains(a) && arbs.contains_key(a) implies #[trigger] self.arbiters@[a]
                == arbs[a] by {
                if exists|j: int| 0 <= j < n && vs[j].arbiter == a {
                    let j = choose|j: int| 0 <= j < n && vs[j].arbiter == a;
                    assert(voters(vs)[j] == a);
                }
            }
            assert forall|id: u32| #[trigger] self.cases().contains_key(id) implies voters(self.cases()[id].votes@).no_duplicates()
                && self.cases()[id].panel@.no_duplicates() by {
                assert(old(self).cases().contains_key(id));
            }
        }
        Ok(RewardsSettled { case_id, total_slashed: total })
    }
}

/// Sum of the stakes (saturating) of the arbiters among the first `n` pool entries.
pub open spec fn spec_pool_stake(pool: Seq<AccountId>, arbs: Map<u64, Arbiter>, n: int) -> int
    decreases n,
{
    if n <= 0 {
        0
    } else {
        let t = spec_pool_stake(pool, arbs, n - 1);
        if arbs.contains_key(pool[n - 1]) { clamp_i128(t + arbs[pool[n - 1]].stake) } else { t }
    }
}

/// `list` without any occurrence of `a`.
pub open spec fn spec_without(list: Seq<AccountId>, a: AccountId) -> Seq<AccountId> {
    list.filter(other_than(a))
}

/// The accounts other than `a`.
pub open spec fn other_than(a: AccountId) -> spec_fn(AccountId) -> bool {
    |x: AccountId| x != a
}

/// Removing an account keeps a duplicate-free list duplicate-free, and drops nothing else.
pub proof fn lemma_without(list: Seq<AccountId>, a: AccountId)
    ensures
        list.no_duplicates() ==> spec_without(list, a).no_duplicates(),
        !spec_without(list, a).contains(a),
        forall|x: AccountId| x != a ==> (#[trigger] spec_without(list, a).contains(x) <==> list.contains(x)),
    decreases list.len(),
{
    let f = other_than(a);
    if list.len() > 0 {
        let rest = list.drop_last();
        let last = list.last();
        lemma_without(rest, a);
        assert(rest.push(last) == list);
        rest.lemma_filter_push(last, f);
        assert forall|x: AccountId| x != a implies (#[trigger] spec_without(list, a).contains(x) <==> list.contains(x)) by {
            if list.contains(x) && x != last {
                let k = choose|k: int| 0 <= k < list.len() && list[k] == x;
                assert(rest[k] == x);
            }
            if spec_without(rest, a).contains(x) {
                assert(rest.contains(x));
                let k = choose|k: int| 0 <= k < rest.len() && rest[k] == x;
                assert(list[k] == x);
            }
            if x == last {
                assert(list[list.len() - 1] == x);
                if f(last) {
                    assert(spec_without(list, a)[spec_without(rest, a).len() as int] == x);
                }
            }
        }
        if list.no_duplicates() {
            assert(rest.no_duplicates()) by {
                assert forall|i: int, j: int| 0 <= i < j < rest.len() implies rest[i] != rest[j] by {
                    assert(list[i] == rest[i] && list[j] == rest[j]);
                }
            }
            if f(last) {
                assert(!rest.contains(last)) by {
                    if rest.contains(last) {
                        let k = choose|k: int| 0 <= k < rest.len() && rest[k] == last;
                        assert(list[k] == list[list.len() - 1]);
                    }
                }
                let w = spec_without(rest, a);
                assert(!w.contains(last));
                assert forall|i: int, j: int| 0 <= i < j < w.push(last).len() implies w.push(last)[i] != w.push(last)[j] by {
                    if j == w.len() {
                        assert(w[i] == w.push(last)[i]);
                    }
                }
            }
        }
    } else {
        reveal(Seq::filter);
    }
}

/// Copy of `list` without `a`.
pub fn remove_account(list: &Vec<AccountId>, a: AccountId) -> (r: Vec<AccountId>)
    ensures
        r@ == spec_without(list@, a),
{
    let mut out: Vec<AccountId> = Vec::new();
    let mut i: usize = 0;
    while i < list.len()
        invariant
            i <= list.len(),
            out@ == spec_without(list@.take(i as int), a),
        decreases list.len() - i,
    {
        proof {
            assert(list@.take(i + 1) == list@.take(i as int).push(list@[i as int]));
            list@.take(i as int).lemma_filter_push(list@[i as int], other_than(a));
        }
        if list[i] != a {
            out.push(list[i]);
        }
        i += 1;
    }
    assert(list@.take(list.len() as int) == list@);
    out
}

impl ArbitrationPool {
    /// Join the pool by staking `stake` of the pool's token (the first joiner fixes the token).
    pub fn join_pool(
        &mut self,
        arbiter: AccountId,
        token: AccountId,
        stake: i128,
        now: u64,
        transfers: &mut Vec<Transfer>,
    ) -> (r: Result<(), ContractError>)
        requires
            old(self).wf(),
        ensures
            final(self).wf(),
            final(self).cases() == old(self).cases(),
            final(self).case_counter() == old(self).case_counter(),
            forall|k: u32| #[trigger] final(self).is_settled(k) == old(self).is_settled(k),
            forall|a: AccountId| #[trigger] final(self).active_cases(a) == old(self).active_cases(a),
            ({
                let rec = old(self).arbiters().contains_key(arbiter);
                let a = old(self).arbiters()[arbiter];
                let token_ok = old(self).pool_token() matches Some(t) ==> t == token;
                &&& stake <= 0 ==> r == Err::<(), ContractError>(ContractError::InvalidInput)
                &&& stake > 0 && !token_ok ==> r == Err::<(), ContractError>(ContractError::InvalidInput)
                &&& stake > 0 && token_ok && rec && a.is_active ==> r == Err::<(), ContractError>(ContractError::ArbiterAlreadyJoined)
                &&& stake > 0 && token_ok && rec && !a.is_active && a.stake + stake > i128::MAX ==> r == Err::<(), ContractError>(
                    ContractError::InvalidInput)
                &&& r is Ok <==> stake > 0 && token_ok && !(rec && a.is_active) && !(rec && a.stake + stake > i128::MAX)
                &&& r is Err ==> final(self).arbiters() == old(self).arbiters() && final(self).pool() == old(self).pool()
                    && final(self).pool_token() == old(self).pool_token() && final(transfers)@ == old(transfers)@
                &&& r is Ok ==> {
                    &&& final(self).pool_token() == Some(token)
                    &&& final(self).arbiters() == old(self).arbiters().insert(arbiter, if rec {
                        Arbiter { stake: (a.stake + stake) as i128, is_active: true, ..a }
                    } else {
                        Arbiter { address: arbiter, stake, cases_decided: 0, cases_correct: 0, is_active: true, joined_at: now }
                    })
                    &&& final(self).pool() == if old(self).pool().contains(arbiter) { old(self).pool() } else {
                        old(self).pool().push(arbiter) }
                    &&& final(transfers)@ == old(transfers)@.push(Transfer { token, from: arbiter, to: CONTRACT_ACCOUNT, amount: stake })
                }
            }),
    {
        if stake <= 0 {
            return Err(ContractError::InvalidInput);
        }
        match self.pool_token {
            Some(t) => {
                if t != token {
                    return Err(ContractError::InvalidInput);
                }
            },
            None => {},
        }
        let existing = self.get_arbiter(arbiter);
        let record = match existing {
            Some(a) => {
                if a.is_active {
                    return Err(ContractError::ArbiterAlreadyJoined);
                }
                match a.stake.checked_add(stake) {
                    Some(x) => Arbiter { stake: x, is_active: true, ..a },
                    None => return Err(ContractError::InvalidInput),
                }
            },
            None => Arbiter { address: arbiter, stake, cases_decided: 0, cases_correct: 0, is_active: true, joined_at: now },
        };
        self.pool_token = Some(token);
        transfers.push(Transfer { token, from: arbiter, to: CONTRACT_ACCOUNT, amount: stake });
        self.arbiters.insert(arbiter, record);
        if !crate::escrow::contains_account(&self.pool, arbiter) {
            let ghost p0 = self.pool@;
            self.pool.push(arbiter);
            proof {
                assert forall|i: int, j: int| 0 <= i < j < self.pool@.len() implies self.pool@[i] != self.pool@[j] by {
                    if j == p0.len() {
                        assert(p0[i] != arbiter);
                    } else {
                        assert(p0[i] != p0[j]);
                    }
                }
            }
        }
        Ok(())
    }

    /// Leave the pool and take the stake back; refused while sitting on an open case.
    pub fn leave_pool(&mut self, arbiter: AccountId, transfers: &mut Vec<Transfer>) -> (r: Result<i128, ContractError>)
        requires
            old(self).wf(),
        ensures
            final(self).wf(),
            final(self).cases() == old(self).cases(),
            final(self).case_counter() == old(self).case_counter(),
            forall|k: u32| #[trigger] final(self).is_settled(k) == old(self).is_settled(k),
            final(self).pool_token() == old(self).pool_token(),
            forall|a: AccountId| #[trigger] final(self).active_cases(a) == old(self).active_cases(a),
            ({
                let rec = old(self).arbiters().contains_key(arbiter);
                let a = old(self).arbiters()[arbiter];
                &&& !(rec && a.is_active) ==> r == Err::<i128, ContractError>(ContractError::ArbiterNotFound)
                &&& rec && a.is_active && old(self).active_cases(arbiter) > 0 ==> r == Err::<i128, ContractError>(
                    ContractError::ArbiterInActiveCase)
                &&& rec && a.is_active && old(self).active_cases(arbiter) == 0 && a.stake > 0 && old(self).pool_token() is None
                    ==> r == Err::<i128, ContractError>(ContractError::InvalidState)
                &&& r is Ok <==> rec && a.is_active && old(self).active_cases(arbiter) == 0 && (a.stake > 0 ==> old(self).pool_token() is Some)
                &&& r is Err ==> final(self).arbiters() == old(self).arbiters() && final(self).pool() == old(self).pool()
                    && final(transfers)@ == old(transfers)@
                &&& r is Ok ==> {
                    &&& r == Ok::<i128, ContractError>(a.stake)
                    &&& final(self).arbiters() == old(self).arbiters().insert(arbiter, Arbiter { stake: 0, is_active: false, ..a })
                    &&& final(self).pool() == spec_without(old(self).pool(), arbiter)
                    &&& final(transfers)@ == if a.stake > 0 { old(transfers)@.push(Transfer { token: old(self).pool_token()->0,
                        from: CONTRACT_ACCOUNT, to: arbiter, amount: a.stake }) } else { old(transfers)@ }
                }
            }),
    {
        let a = match self.get_arbiter(arbiter) {
            Some(a) => a,
            None => return Err(ContractError::ArbiterNotFound),
        };
        if !a.is_active {
            return Err(ContractError::ArbiterNotFound);
        }
        let active = match self.active_cases.get(&arbiter) {
            Some(c) => *c,
            None => 0,
        };
        if active > 0 {
            return Err(ContractError::ArbiterInActiveCase);
        }
        let refund = a.stake;
        if refund > 0 && self.pool_token.is_none() {
            return Err(ContractError::InvalidState);
        }
        self.arbiters.insert(arbiter, Arbiter { stake: 0, is_active: false, ..a });
        let new_pool = remove_account(&self.pool, arbiter);
        proof {
            lemma_without(self.pool@, arbiter);
        }
        self.pool = new_pool;
        if refund > 0 {
            let token = self.pool_token.unwrap();
            transfers.push(Transfer { token, from: CONTRACT_ACCOUNT, to: arbiter, amount: refund });
        }
        Ok(refund)
    }

    /// Pool statistics: the number of pooled arbiters and their total stake.
    pub fn pool_stats(&self) -> (r: (u32, i128))
        requires
            self.pool().len() <= u32::MAX,
        ensures
            r.0 == self.pool().len(),
            r.1 == spec_pool_stake(self.pool(), self.arbiters(), self.pool().len() as int),
    {
        let mut total: i128 = 0;
        let mut i: usize = 0;
        while i < self.pool.len()
            invariant
                i <= self.pool@.len(),
                total == spec_pool_stake(self.pool(), self.arbiters(), i as int),
            decreases self.pool@.len() - i,
        {
            match self.arbiters.get(&self.pool[i]) {
                Some(a) => {
                    total = crate::arith::sat_add_i128(total, a.stake);
                },
                None => {},
            }
            i += 1;
        }
        (self.pool.len() as u32, total)
    }
}


/// Number of votes in favour of the contributor among the first `n` votes.
pub open spec fn spec_favor_count(votes: Seq<ArbiterVote>, n: int) -> int
    decreases n,
{
    if n <= 0 {
        0
    } else {
        spec_favor_count(votes, n - 1) + if votes[n - 1].favor_contributor { 1int } else { 0int }
    }
}

/// Majority outcome of a vote list: in favour of the contributor only with strictly more
/// votes for than against (a tie goes to the funder).
pub open spec fn spec_case_outcome(votes: Seq<ArbiterVote>) -> bool {
    spec_favor_count(votes, votes.len() as int) > votes.len() - spec_favor_count(votes, votes.len() as int)
}

proof fn lemma_favor_count_bounds(votes: Seq<ArbiterVote>, n: int)
    requires
        0 <= n <= votes.len(),
    ensures
        0 <= spec_favor_count(votes, n) <= n,
    decreases n,
{
    if n > 0 {
        lemma_favor_count_bounds(votes, n - 1);
    }
}

impl ArbitrationPool {
    /// Open an arbitration case for a dispute with a panel of `panel_size` (3 or 5) arbiters:
    /// the first `panel_size` entries of `shuffled`, the pool in the random order drawn by the
    /// caller. Each panellist's open-case count goes up by one (saturating).
    pub fn assign_panel(&mut self, dispute_id: u32, panel_size: u32, shuffled: &Vec<AccountId>, now: u64) -> (r: Result<
        u32,
        ContractError,
    >)
        requires
            old(self).wf(),
            shuffled@.len() == old(self).pool().len(),
            shuffled@.no_duplicates(),
            forall|i: int| 0 <= i < shuffled@.len() ==> old(self).pool().contains(#[trigger] shuffled@[i]),
            old(self).case_counter() < u32::MAX,
            now + ARBITRATION_VOTING_WINDOW <= u64::MAX,
        ensures
            final(self).wf(),
            final(self).arbiters() == old(self).arbiters(),
            final(self).pool() == old(self).pool(),
            final(self).pool_token() == old(self).pool_token(),
            forall|k: u32| #[trigger] final(self).is_settled(k) == old(self).is_settled(k),
            panel_size != 3 && panel_size != 5 ==> r == Err::<u32, ContractError>(ContractError::InvalidInput),
            (panel_size == 3 || panel_size == 5) && old(self).pool().len() < panel_size ==> r == Err::<u32, ContractError>(
                ContractError::InsufficientArbiters),
            r is Ok <==> (panel_size == 3 || panel_size == 5) && old(self).pool().len() >= panel_size,
            r is Err ==> final(self).cases() == old(self).cases() && final(self).case_counter() == old(self).case_counter()
                && (forall|a: AccountId| #[trigger] final(self).active_cases(a) == old(self).active_cases(a))
                && (forall|d: u32| #[trigger] final(self).case_of_dispute(d) == old(self).case_of_dispute(d)),
            r is Ok ==> ({
                let id = (old(self).case_counter() + 1) as u32;
                let panel = shuffled@.take(panel_size as int);
                let c = final(self).cases()[id];
                &&& r == Ok::<u32, ContractError>(id)
                &&& final(self).case_counter() == id
                &&& final(self).cases() == old(self).cases().insert(id, c)
                &&& c.id == id && c.dispute_id == dispute_id && c.panel@ == panel && c.votes@.len() == 0
                &&& c.outcome is None && !c.finalized && c.assigned_at == now && c.deadline == now + ARBITRATION_VOTING_WINDOW
                &&& forall|a: AccountId| #[trigger] final(self).active_cases(a) == if panel.contains(a) {
                    clamp_u32(old(self).active_cases(a) + 1)
                } else {
                    old(self).active_cases(a) as int
                }
                &&& forall|d: u32| #[trigger] final(self).case_of_dispute(d) == if d == dispute_id { Some(id) } else {
                    old(self).case_of_dispute(d) }
            }),
    {
        if panel_size != 3 && panel_size != 5 {
            return Err(ContractError::InvalidInput);
        }
        if self.pool.len() < panel_size as usize {
            return Err(ContractError::InsufficientArbiters);
        }
        let n: usize = panel_size as usize;
        let mut panel: Vec<AccountId> = Vec::new();
        let mut i: usize = 0;
        while i < n
            invariant
                n == panel_size,
                n <= shuffled@.len(),
                i <= n,
                shuffled@.no_duplicates(),
                panel@ == shuffled@.take(i as int),
                forall|a: AccountId| #[trigger] self.active_cases(a) == if shuffled@.take(i as int).contains(a) {
                    clamp_u32(old(self).active_cases(a) + 1)
                } else {
                    old(self).active_cases(a) as int
                },
                self.arbiters == old(self).arbiters,
                self.pool == old(self).pool,
                self.pool_token == old(self).pool_token,
                self.cases == old(self).cases,
                self.case_counter == old(self).case_counter,
                self.case_by_dispute == old(self).case_by_dispute,
                self.settled == old(self).settled,
            decreases n - i,
        {
            let addr = shuffled[i];
            let count: u32 = match self.active_cases.get(&addr) {
                Some(c) => *c,
                None => 0,
            };
            proof {
                assert(!shuffled@.take(i as int).contains(addr)) by {
                    if shuffled@.take(i as int).contains(addr) {
                        let k = choose|k: int| 0 <= k < i && shuffled@.take(i as int)[k] == addr;
                        assert(shuffled@[k] == shuffled@[i as int]);
                    }
                }
                assert(shuffled@.take(i + 1) == shuffled@.take(i as int).push(addr));
            }
            let ghost pre = *self;
            self.active_cases.insert(addr, count.saturating_add(1));
            proof {
                broadcast use vstd::seq_lib::lemma_seq_contains_after_push;
                assert forall|a: AccountId| #[trigger] self.active_cases(a) == if shuffled@.take(i + 1).contains(a) {
                    clamp_u32(old(self).active_cases(a) + 1)
                } else {
                    old(self).active_cases(a) as int
                } by {
                    assert(pre.active_cases(a) == if shuffled@.take(i as int).contains(a) {
                        clamp_u32(old(self).active_cases(a) + 1)
                    } else {
                        old(self).active_cases(a) as int
                    });
                }
            }
            panel.push(addr);
            i += 1;
        }
        let ghost after_loop = *self;
        let id = self.case_counter + 1;
        self.case_counter = id;
        let case = ArbitrationCase {
            id,
            dispute_id,
            panel,
            votes: Vec::new(),
            outcome: None,
            finalized: false,
            assigned_at: now,
            deadline: now + ARBITRATION_VOTING_WINDOW,
        };
        let ghost old_cases = self.cases@;
        self.cases.insert(id, case);
        self.case_by_dispute.insert(dispute_id, id);
        proof {
            assert(self.cases@ == old_cases.insert(id, self.cases@[id]));
            assert(shuffled@.take(panel_size as int).no_duplicates()) by {
                let t = shuffled@.take(panel_size as int);
                assert forall|x: int, y: int| 0 <= x < y < t.len() implies t[x] != t[y] by {
                    assert(t[x] == shuffled@[x] && t[y] == shuffled@[y]);
                }
            }
            assert(voters(self.cases@[id].votes@) =~= Seq::<AccountId>::empty());
            assert forall|a: AccountId| #[trigger] self.active_cases(a) == if shuffled@.take(panel_size as int).contains(a) {
                clamp_u32(old(self).active_cases(a) + 1)
            } else {
                old(self).active_cases(a) as int
            } by {
                assert(after_loop.active_cases(a) == self.active_cases(a));
            }
            assert forall|k: u32| #[trigger] self.cases().contains_key(k) implies voters(self.cases()[k].votes@).no_duplicates()
                && self.cases()[k].panel@.no_duplicates() by {
                if k != id {
                    assert(old(self).cases().contains_key(k));
                }
            }
        }
        Ok(id)
    }

    /// A panellist votes on an open case, before its deadline, at most once.
    pub fn cast_arbiter_vote(&mut self, arbiter: AccountId, case_id: u32, favor_contributor: bool, confidence: u32, now: u64)
        -> (r: Result<(), ContractError>)
        requires
            old(self).wf(),
        ensures
            final(self).wf(),
            final(self).arbiters() == old(self).arbiters(),
            final(self).pool() == old(self).pool(),
            final(self).pool_token() == old(self).pool_token(),
            final(self).case_counter() == old(self).case_counter(),
            forall|a: AccountId| #[trigger] final(self).active_cases(a) == old(self).active_cases(a),
            forall|d: u32| #[trigger] final(self).case_of_dispute(d) == old(self).case_of_dispute(d),
            forall|k: u32| #[trigger] final(self).is_settled(k) == old(self).is_settled(k),
            final(self).cases().dom() == old(self).cases().dom(),
            forall|k: u32| k != case_id && #[trigger] old(self).cases().contains_key(k) ==> final(self).cases()[k] == old(self).cases()[k],
            ({
                let found = old(self).cases().contains_key(case_id);
                let c = old(self).cases()[case_id];
                let conf_ok = 1 <= confidence <= 100;
                &&& !conf_ok ==> r == Err::<(), ContractError>(ContractError::InvalidInput)
                &&& conf_ok && !found ==> r == Err::<(), ContractError>(ContractError::ArbitrationCaseNotFound)
                &&& conf_ok && found && c.finalized ==> r == Err::<(), ContractError>(ContractError::CaseAlreadyFinalized)
                &&& conf_ok && found && !c.finalized && now > c.deadline ==> r == Err::<(), ContractError>(
                    ContractError::VotingDeadlinePassed)
                &&& conf_ok && found && !c.finalized && now <= c.deadline && !c.panel@.contains(arbiter) ==> r == Err::<
                    (),
                    ContractError,
                >(ContractError::NotPanelMember)
                &&& conf_ok && found && !c.finalized && now <= c.deadline && c.panel@.contains(arbiter) && voters(
                    c.votes@,
                ).contains(arbiter) ==> r == Err::<(), ContractError>(ContractError::AlreadyVoted)
                &&& r is Ok <==> conf_ok && found && !c.finalized && now <= c.deadline && c.panel@.contains(arbiter)
                    && !voters(c.votes@).contains(arbiter)
                &&& r is Err ==> final(self).cases() == old(self).cases()
                &&& r is Ok ==> {
                    let nc = final(self).cases()[case_id];
                    &&& nc.votes@ == c.votes@.push(ArbiterVote { arbiter, favor_contributor, confidence, voted_at: now })
                    &&& nc.id == c.id && nc.dispute_id == c.dispute_id && nc.panel@ == c.panel@ && nc.outcome == c.outcome
                    &&& nc.finalized == c.finalized && nc.assigned_at == c.assigned_at && nc.deadline == c.deadline
                }
            }),
    {
        if confidence < 1 || confidence > 100 {
            return Err(ContractError::InvalidInput);
        }
        let mut case = match self.cases.remove(&case_id) {
            Some(c) => c,
            None => return Err(ContractError::ArbitrationCaseNotFound),
        };
        let ghost c0 = case;
        let ghost cases0 = old(self).cases@;
        let check: Result<(), ContractError> = if case.finalized {
            Err(ContractError::CaseAlreadyFinalized)
        } else if now > case.deadline {
            Err(ContractError::VotingDeadlinePassed)
        } else if !crate::escrow::contains_account(&case.panel, arbiter) {
            Err(ContractError::NotPanelMember)
        } else if voted(&case.votes, arbiter) {
            Err(ContractError::AlreadyVoted)
        } else {
            Ok(())
        };
        match check {
            Err(e) => {
                self.cases.insert(case_id, case);
                proof {
                    assert(self.cases@ =~= cases0);
                }
                return Err(e);
            },
            Ok(()) => {},
        }
        let vote = ArbiterVote { arbiter, favor_contributor, confidence, voted_at: now };
        case.votes.push(vote);
        proof {
            let vs0 = c0.votes@;
            let vs = case.votes@;
            assert(voters(vs) == voters(vs0).push(arbiter));
            assert forall|i: int, j: int| 0 <= i < j < voters(vs).len() implies voters(vs)[i] != voters(vs)[j] by {
                if j == vs0.len() {
                    assert(voters(vs0)[i] == voters(vs)[i]);
                    assert(voters(vs0).contains(voters(vs0)[i]));
                } else {
                    assert(voters(vs0)[i] == voters(vs)[i] && voters(vs0)[j] == voters(vs)[j]);
                }
            }
        }
        self.cases.insert(case_id, case);
        proof {
            assert forall|k: u32| #[trigger] self.cases().contains_key(k) implies voters(self.cases()[k].votes@).no_duplicates()
                && self.cases()[k].panel@.no_duplicates() by {
                assert(old(self).cases().contains_key(k));
            }
            assert(self.cases@.dom() =~= cases0.dom());
        }
        Ok(())
    }

    /// Close a case once every panellist has voted or the deadline has passed. The outcome is
    /// the majority of the votes cast (a tie goes to the funder); every panellist's open-case
    /// count goes down by one (saturating).
    pub fn finalize_case(&mut self, case_id: u32, now: u64) -> (r: Result<bool, ContractError>)
        requires
            old(self).wf(),
        ensures
            final(self).wf(),
            final(self).arbiters() == old(self).arbiters(),
            final(self).pool() == old(self).pool(),
            final(self).pool_token() == old(self).pool_token(),
            final(self).case_counter() == old(self).case_counter(),
            forall|d: u32| #[trigger] final(self).case_of_dispute(d) == old(self).case_of_dispute(d),
            forall|k: u32| #[trigger] final(self).is_settled(k) == old(self).is_settled(k),
            final(self).cases().dom() == old(self).cases().dom(),
            forall|k: u32| k != case_id && #[trigger] old(self).cases().contains_key(k) ==> final(self).cases()[k] == old(self).cases()[k],
            ({
                let found = old(self).cases().contains_key(case_id);
                let c = old(self).cases()[case_id];
                let closed = now > c.deadline || c.votes@.len() >= c.panel@.len();
                &&& !found ==> r == Err::<bool, ContractError>(ContractError::ArbitrationCaseNotFound)
                &&& found && c.finalized ==> r == Err::<bool, ContractError>(ContractError::CaseAlreadyFinalized)
                &&& found && !c.finalized && !closed ==> r == Err::<bool, ContractError>(ContractError::InvalidState)
                &&& r is Ok <==> found && !c.finalized && closed
                &&& r is Err ==> final(self).cases() == old(self).cases()
                    && (forall|a: AccountId| #[trigger] final(self).active_cases(a) == old(self).active_cases(a))
                &&& r is Ok ==> {
                    let nc = final(self).cases()[case_id];
                    &&& r == Ok::<bool, ContractError>(spec_case_outcome(c.votes@))
                    &&& nc.outcome == Some(spec_case_outcome(c.votes@)) && nc.finalized
                    &&& nc.votes@ == c.votes@ && nc.panel@ == c.panel@ && nc.id == c.id && nc.dispute_id == c.dispute_id
                    &&& nc.assigned_at == c.assigned_at && nc.deadline == c.deadline
                    &&& forall|a: AccountId| #[trigger] final(self).active_cases(a) == if c.panel@.contains(a) {
                        clamp_u32(old(self).active_cases(a) - 1)
                    } else {
                        old(self).active_cases(a) as int
                    }
                }
            }),
    {
        let mut case = match self.cases.remove(&case_id) {
            Some(c) => c,
            None => return Err(ContractError::ArbitrationCaseNotFound),
        };
        let ghost c0 = case;
        let ghost cases0 = old(self).cases@;
        let all_voted = case.votes.len() >= case.panel.len();
        let check: Result<(), ContractError> = if case.finalized {
            Err(ContractError::CaseAlreadyFinalized)
        } else if now <= case.deadline && !all_voted {
            Err(ContractError::InvalidState)
        } else {
            Ok(())
        };
        match check {
            Err(e) => {
                self.cases.insert(case_id, case);
                proof {
                    assert(self.cases@ =~= cases0);
                }
                return Err(e);
            },
            Ok(()) => {},
        }
        let mut favor: usize = 0;
        let mut k: usize = 0;
        while k < case.votes.len()
            invariant
                k <= case.votes@.len(),
                favor == spec_favor_count(case.votes@, k as int),
            decreases case.votes@.len() - k,
        {
            proof {
                lemma_favor_count_bounds(case.votes@, k as int);
            }
            if case.votes[k].favor_contributor {
                favor += 1;
            }
            k += 1;
        }
        proof {
            lemma_favor_count_bounds(case.votes@, case.votes@.len() as int);
        }
        let against = case.votes.len() - favor;
        let outcome = favor > against;
        case.outcome = Some(outcome);
        case.finalized = true;
        let mut i: usize = 0;
        while i < case.panel.len()
            invariant
                i <= case.panel@.len(),
                case.panel@ == c0.panel@,
                c0.panel@.no_duplicates(),
                forall|a: AccountId| #[trigger] self.active_cases(a) == if c0.panel@.take(i as int).contains(a) {
                    clamp_u32(old(self).active_cases(a) - 1)
                } else {
                    old(self).active_cases(a) as int
                },
                self.arbiters == old(self).arbiters,
                self.pool == old(self).pool,
                self.pool_token == old(self).pool_token,
                self.cases@ == cases0.remove(case_id),
                self.case_counter == old(self).case_counter,
                self.case_by_dispute == old(self).case_by_dispute,
                self.settled == old(self).settled,
            decreases case.panel@.len() - i,
        {
            let addr = case.panel[i];
            let count: u32 = match self.active_cases.get(&addr) {
                Some(c) => *c,
                None => 0,
            };
            proof {
                assert(!c0.panel@.take(i as int).contains(addr)) by {
                    if c0.panel@.take(i as int).contains(addr) {
                        let j = choose|j: int| 0 <= j < i && c0.panel@.take(i as int)[j] == addr;
                        assert(c0.panel@[j] == c0.panel@[i as int]);
                    }
                }
                assert(c0.panel@.take(i + 1) == c0.panel@.take(i as int).push(addr));
            }
            let ghost pre = *self;
            self.active_cases.insert(addr, count.saturating_sub(1));
            proof {
                broadcast use vstd::seq_lib::lemma_seq_contains_after_push;
                assert forall|a: AccountId| #[trigger] self.active_cases(a) == if c0.panel@.take(i + 1).contains(a) {
                    clamp_u32(old(self).active_cases(a) - 1)
                } else {
                    old(self).active_cases(a) as int
                } by {
                    assert(pre.active_cases(a) == if c0.panel@.take(i as int).contains(a) {
                        clamp_u32(old(self).active_cases(a) - 1)
                    } else {
                        old(self).active_cases(a) as int
                    });
                }
            }
            i += 1;
        }
        proof {
            assert(c0.panel@.take(c0.panel@.len() as int) == c0.panel@);
        }
        let ghost after_loop = *self;
        self.cases.insert(case_id, case);
        proof {
            assert forall|k: u32| #[trigger] self.cases().contains_key(k) implies voters(self.cases()[k].votes@).no_duplicates()
                && self.cases()[k].panel@.no_duplicates() by {
                assert(old(self).cases().contains_key(k));
            }
            assert(self.cases@.dom() =~= cases0.dom());
            assert forall|a: AccountId| #[trigger] self.active_cases(a) == if c0.panel@.contains(a) {
                clamp_u32(old(self).active_cases(a) - 1)
            } else {
                old(self).active_cases(a) as int
            } by {
                assert(after_loop.active_cases(a) == self.active_cases(a));
            }
        }
        Ok(outcome)
    }
}

/// Whether `arbiter` has a vote in `votes`.
pub fn voted(votes: &Vec<ArbiterVote>, arbiter: AccountId) -> (r: bool)
    ensures
        r == voters(votes@).contains(arbiter),
{
    let mut i: usize = 0;
    while i < votes.len()
        invariant
            i <= votes@.len(),
            forall|j: int| 0 <= j < i ==> votes@[j].arbiter != arbiter,
        decreases votes@.len() - i,
    {
        if votes[i].arbiter == arbiter {
            proof {
                assert(voters(votes@)[i as int] == arbiter);
            }
            return true;
        }
        i += 1;
    }
    proof {
        if voters(votes@).contains(arbiter) {
            let j = choose|j: int| 0 <= j < voters(votes@).len() && voters(votes@)[j] == arbiter;
            assert(votes@[j].arbiter == arbiter);
        }
    }
    false
}

} // verus!
