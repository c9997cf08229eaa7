use vstd::prelude::*;

use crate::arith::{max_int, min_int};
use crate::constants::BASIS_POINTS_SCALE;
use crate::escrow::{
    spec_deposited, spec_distributed, spec_prefix_sum, spec_proportional_share, spec_refund_amount, spec_refund_at,
    spec_refund_outcome, spec_refund_transfers, EscrowBook,
};
use crate::arbitration_pool::{
    spec_last_majority, spec_majority_weight, spec_share, spec_share_at, spec_shares_paid, spec_slash, spec_stake_after,
    spec_total_slashed, Arbiter, ArbiterVote,
};
use crate::dispute::{spec_funds_total, spec_return_share, spec_return_transfers, spec_returned};
use crate::escrow::{spec_nets, spec_refund_all_fits, spec_refunded_all};
use crate::fees::spec_fee;
use crate::grants::GrantFund;
use crate::fork::spec_fork_depth;
use crate::grants::GrantBook;
use crate::keys::Transfer;
use crate::matching::{spec_allocation, spec_allocations, spec_matched, spec_qf_parts, spec_qf_score, spec_total_qf, RoundContribution};
use crate::reputation::{spec_delivery_component, spec_score, spec_tier};
use crate::streaming::{spec_accrued, stream_wf};
use crate::syndication::{spec_allocation_of, SyndicateMember};
use crate::dispute::spec_dispute_outcome;
use crate::types::{DisputeStatus, PaymentStream, StreamStatus};
use crate::types::{AccountId, MatchingAllocation, ReputationTier};

verus! {

/// The fee on a positive amount at a rate of at most 100% is between zero and the amount.
pub proof fn lemma_fee_within_gross(gross: i128, fee_bps: u32)
    requires
        gross > 0,
        fee_bps <= BASIS_POINTS_SCALE,
    ensures
        0 <= spec_fee(gross as int, fee_bps as int) <= gross,
{
    if fee_bps > 0 {
        assert(0 <= (gross * fee_bps) / 10_000 <= gross) by (nonlinear_arith)
            requires
                gross > 0,
                0 < fee_bps <= 10_000,
        ;
    }
}

/// A larger amount never owes a smaller fee.
pub proof fn lemma_fee_monotone(g1: i128, g2: i128, fee_bps: u32)
    requires
        g1 <= g2,
    ensures
        spec_fee(g1 as int, fee_bps as int) <= spec_fee(g2 as int, fee_bps as int),
{
    if fee_bps > 0 && g1 > 0 {
        assert((g1 * fee_bps) / 10_000 <= (g2 * fee_bps) / 10_000) by (nonlinear_arith)
            requires
                0 < g1 <= g2,
                fee_bps > 0,
        ;
    }
    if fee_bps > 0 && g1 <= 0 && g2 > 0 {
        assert((g2 * fee_bps) / 10_000 >= 0) by (nonlinear_arith)
            requires
                g2 > 0,
                fee_bps > 0,
        ;
    }
}

/// The rank of a reputation tier, from `Unranked` (0) to `Platinum` (4).
pub open spec fn tier_rank(t: ReputationTier) -> int {
    match t {
        ReputationTier::Unranked => 0,
        ReputationTier::Bronze => 1,
        ReputationTier::Silver => 2,
        ReputationTier::Gold => 3,
        ReputationTier::Platinum => 4,
    }
}

/// A higher score never falls in a lower tier.
pub proof fn lemma_tier_monotone(s1: int, s2: int)
    requires
        s1 <= s2,
    ensures
        tier_rank(spec_tier(s1)) <= tier_rank(spec_tier(s2)),
{
}

/// Total of the amounts of a list of transfers.
pub open spec fn spec_transfer_sum(ts: Seq<Transfer>) -> int
    decreases ts.len(),
{
    if ts.len() == 0 {
        0
    } else {
        spec_transfer_sum(ts.drop_last()) + ts.last().amount
    }
}

/// Returning an escrow to its funders pays out in total what was distributed; and when the
/// last listed funder is owed a positive remainder, that is the whole balance.
pub proof fn lemma_refund_all_pays_balance(
    list: Seq<AccountId>,
    nets: Seq<int>,
    total: int,
    balance: int,
    token: AccountId,
    n: int,
)
    requires
        0 <= n <= nets.len(),
        nets.len() == list.len(),
        forall|k: int| 0 <= k <= n ==> i128::MIN <= #[trigger] spec_distributed(nets, total, balance, k) <= i128::MAX,
        n > 0 ==> i128::MIN <= spec_refund_at(nets, total, balance, n - 1) <= i128::MAX,
    ensures
        spec_transfer_sum(spec_refund_transfers(list, nets, total, balance, token, n)) == spec_distributed(
            nets,
            total,
            balance,
            n,
        ),
        n == nets.len() && n > 0 && spec_refund_at(nets, total, balance, n - 1) > 0 ==> spec_distributed(
            nets,
            total,
            balance,
            n,
        ) == balance,
    decreases n,
{
    if n > 0 {
        if n - 1 > 0 {
            assert(i128::MIN <= spec_refund_at(nets, total, balance, n - 2) <= i128::MAX) by {
                let d1 = spec_distributed(nets, total, balance, n - 2);
                let d2 = spec_distributed(nets, total, balance, n - 1);
                let a = spec_refund_at(nets, total, balance, n - 2);
                assert(a > 0 ==> d2 == d1 + a);
                if a <= 0 {
                    assert(a == crate::escrow::spec_refund_amount(
                        nets[n - 2],
                        n - 2 == nets.len() - 1,
                        total,
                        balance,
                        d1,
                    ));
                }
            }
        }
        lemma_refund_all_pays_balance(list, nets, total, balance, token, n - 1);
        let prev = spec_refund_transfers(list, nets, total, balance, token, n - 1);
        let a = spec_refund_at(nets, total, balance, n - 1);
        if a > 0 {
            assert(spec_refund_transfers(list, nets, total, balance, token, n).drop_last() == prev);
        }
    }
}

proof fn lemma_prefix_nonneg(nets: Seq<int>, k: int)
    requires
        0 <= k <= nets.len(),
        forall|i: int| 0 <= i < nets.len() ==> #[trigger] nets[i] >= 0,
    ensures
        spec_prefix_sum(nets, k) >= 0,
    decreases k,
{
    if k > 0 {
        lemma_prefix_nonneg(nets, k - 1);
    }
}

/// Before the last listed funder, what a full refund has paid out is at most the balance's
/// share of the nets counted so far.
proof fn lemma_distributed_bounded(nets: Seq<int>, total: int, balance: int, k: int)
    requires
        0 <= k < nets.len(),
        total >= 0,
        balance > 0,
        forall|i: int| 0 <= i < nets.len() ==> #[trigger] nets[i] >= 0,
    ensures
        spec_distributed(nets, total, balance, k) >= 0,
        total > 0 ==> spec_distributed(nets, total, balance, k) * total <= balance * spec_prefix_sum(nets, k),
        total == 0 ==> spec_distributed(nets, total, balance, k) == 0,
        spec_prefix_sum(nets, k) >= 0,
    decreases k,
{
    if k > 0 {
        lemma_distributed_bounded(nets, total, balance, k - 1);
        let d = spec_distributed(nets, total, balance, k - 1);
        let net = nets[k - 1];
        let a = spec_refund_amount(net, k - 1 == nets.len() - 1, total, balance, d);
        assert(k - 1 != nets.len() - 1);
        if net > 0 && total > 0 {
            let c = crate::arith::clamp_i128(net * balance);
            assert(net * balance > 0) by (nonlinear_arith) requires net > 0, balance > 0;
            assert(0 < c <= net * balance);
            assert(a == spec_proportional_share(net, total, balance));
            assert(a == c / total);
            assert(a >= 0 && a * total <= c) by (nonlinear_arith) requires c > 0, total > 0, a == c / total;
            let p = spec_prefix_sum(nets, k - 1);
            assert((d + a) * total <= balance * (p + net)) by (nonlinear_arith)
                requires d * total <= balance * p, a * total <= net * balance, total > 0;
        }
    }
}

/// When no funder's net contribution is negative, returning an escrow to its funders pays
/// out exactly the balance: the others their shares, the last listed funder the rest.
pub proof fn lemma_refund_all_sums_to_balance(list: Seq<AccountId>, nets: Seq<int>, balance: int, token: AccountId)
    requires
        nets.len() == list.len(),
        nets.len() > 0,
        balance > 0,
        forall|i: int| 0 <= i < nets.len() ==> #[trigger] nets[i] >= 0,
        forall|k: int| 0 <= k <= nets.len() ==> i128::MIN <= #[trigger] spec_distributed(nets, spec_prefix_sum(nets, nets.len() as int), balance, k) <= i128::MAX,
        i128::MIN <= balance - spec_distributed(nets, spec_prefix_sum(nets, nets.len() as int), balance, nets.len() - 1) <= i128::MAX,
    ensures
        spec_transfer_sum(spec_refund_transfers(list, nets, spec_prefix_sum(nets, nets.len() as int), balance, token,
            nets.len() as int)) == balance,
{
    let n = nets.len() as int;
    let total = spec_prefix_sum(nets, n);
    lemma_prefix_nonneg(nets, n);
    lemma_distributed_bounded(nets, total, balance, n - 1);
    let p = spec_prefix_sum(nets, n - 1);
    assert(total == p + nets[n - 1]);
    let d = spec_distributed(nets, total, balance, n - 1);
    if total > 0 {
        assert(d <= balance) by (nonlinear_arith)
            requires d * total <= balance * p, p <= total, total > 0, balance > 0;
    }
    assert(spec_refund_at(nets, total, balance, n - 1) == balance - d);
    lemma_refund_all_pays_balance(list, nets, total, balance, token, n);
}

/// A funder's first (accepted) deposit into an escrow that held no negative balance can be
/// refunded in full.
pub proof fn lemma_first_deposit_refundable(
    e0: &EscrowBook,
    e1: &EscrowBook,
    g0: &GrantBook,
    g1: &GrantBook,
    t0: Seq<Transfer>,
    t1: Seq<Transfer>,
    grant_id: u64,
    funder: AccountId,
    amount: i128,
    now: u64,
)
    requires
        amount > 0,
        e0.accounts().contains_key(grant_id),
        e0.accounts()[grant_id].balance >= 0,
        e0.accounts()[grant_id].balance + amount <= i128::MAX,
        e0.ledger(grant_id, funder) is None,
        spec_deposited(e0, e1, g0, g1, t0, t1, grant_id, funder, amount, now),
    ensures
        spec_refund_outcome(e1, grant_id, funder) == Ok::<i128, crate::errors::ContractError>(amount),
{
    assert(e1.ledger(grant_id, funder) == Some(
        crate::escrow::spec_ledger_after_deposit(e0.ledger(grant_id, funder), funder, amount as int, now),
    ));
    assert(e1.accounts().contains_key(grant_id));
    assert(e1.accounts()[grant_id].balance == e0.accounts()[grant_id].balance + amount);
}

/// Recording a fork under a fresh id of an older grant puts it one fork below its original,
/// and leaves the depth of every older grant as it was.
pub proof fn lemma_fork_depth_after_fork(origins: Map<u64, u64>, original: u64, id: u64, k: u64)
    requires
        forall|x: u64| #[trigger] origins.contains_key(x) ==> origins[x] < x,
        original < id,
        !origins.contains_key(id),
        k <= id,
    ensures
        k < id ==> spec_fork_depth(origins.insert(id, original), k) == spec_fork_depth(origins, k),
        k == id ==> spec_fork_depth(origins.insert(id, original), k) == spec_fork_depth(origins, original) + 1,
    decreases k,
{
    let o2 = origins.insert(id, original);
    if k == id {
        lemma_fork_depth_after_fork(origins, original, id, original);
    } else if origins.contains_key(k) {
        lemma_fork_depth_after_fork(origins, original, id, origins[k]);
    }
}


/// The stakes on record of the arbiters of the first `n` votes.
pub open spec fn spec_voter_stakes(votes: Seq<ArbiterVote>, arbs: Map<u64, Arbiter>, n: int) -> int
    decreases n,
{
    if n <= 0 {
        0
    } else {
        spec_voter_stakes(votes, arbs, n - 1) + arbs[votes[n - 1].arbiter].stake
    }
}

/// The stakes of the arbiters of the first `n` votes after a case is settled.
pub open spec fn spec_voter_stakes_after(votes: Seq<ArbiterVote>, outcome: bool, arbs: Map<u64, Arbiter>, n: int) -> int
    decreases n,
{
    if n <= 0 {
        0
    } else {
        spec_voter_stakes_after(votes, outcome, arbs, n - 1) + spec_stake_after(votes, outcome, arbs, n - 1)
    }
}

/// The voters' stakes before and after settlement differ by what the majority gained less
/// what the minority lost, with nothing saturated along the way.
proof fn lemma_settle_steps(votes: Seq<ArbiterVote>, outcome: bool, arbs: Map<u64, Arbiter>, n: int)
    requires
        0 <= n <= votes.len(),
        forall|i: int| 0 <= i < votes.len() ==> arbs.contains_key(#[trigger] votes[i].arbiter),
        forall|i: int| 0 <= i < votes.len() ==> #[trigger] arbs[votes[i].arbiter].stake >= 0,
        forall|i: int| 0 <= i < votes.len() ==> #[trigger] votes[i].confidence <= 100,
        votes.len() <= 1_000_000,
        spec_voter_stakes(votes, arbs, votes.len() as int) <= i128::MAX,
    ensures
        0 <= spec_total_slashed(votes, outcome, arbs, n) <= spec_voter_stakes(votes, arbs, n),
        0 <= spec_majority_weight(votes, outcome, arbs, n) <= 100 * n,
        0 <= spec_voter_stakes(votes, arbs, n) <= spec_voter_stakes(votes, arbs, votes.len() as int),
    decreases n,
{
    lemma_voter_stakes_mono(votes, arbs, n, votes.len() as int);
    if n > 0 {
        lemma_settle_steps(votes, outcome, arbs, n - 1);
        let st = arbs[votes[n - 1].arbiter].stake as int;
        assert(st >= 0);
        assert(0 <= spec_slash(st) <= st) by (nonlinear_arith)
            requires st >= 0, spec_slash(st) == (st * 1000) / 10_000;
    }
}

proof fn lemma_voter_stakes_mono(votes: Seq<ArbiterVote>, arbs: Map<u64, Arbiter>, n: int, m: int)
    requires
        0 <= n <= m <= votes.len(),
        forall|i: int| 0 <= i < votes.len() ==> #[trigger] arbs[votes[i].arbiter].stake >= 0,
    ensures
        0 <= spec_voter_stakes(votes, arbs, n) <= spec_voter_stakes(votes, arbs, m),
    decreases m,
{
    if m > n {
        lemma_voter_stakes_mono(votes, arbs, n, m - 1);
        assert(arbs[votes[m - 1].arbiter].stake >= 0);
    } else if n > 0 {
        lemma_voter_stakes_mono(votes, arbs, n - 1, n - 1);
        assert(arbs[votes[n - 1].arbiter].stake >= 0);
    }
}

/// Up to the last majority vote, the shares paid are at most the pot's share of the
/// majority weight counted so far.
proof fn lemma_shares_bounded(votes: Seq<ArbiterVote>, outcome: bool, arbs: Map<u64, Arbiter>, total: int, weight: int, k: int)
    requires
        0 <= k <= spec_last_majority(votes, outcome, votes.len() as int),
        spec_last_majority(votes, outcome, votes.len() as int) < votes.len(),
        total > 0,
        weight > 0,
        total <= i128::MAX,
        votes.len() <= 1_000_000,
        forall|i: int| 0 <= i < votes.len() ==> #[trigger] votes[i].confidence <= 100,
        spec_majority_weight(votes, outcome, arbs, k) <= weight,
        forall|i: int| 0 <= i < votes.len() ==> arbs.contains_key(#[trigger] votes[i].arbiter),
        forall|j: int| 0 <= j <= k ==> 0 <= #[trigger] spec_majority_weight(votes, outcome, arbs, j) <= 100 * j,
    ensures
        0 <= spec_shares_paid(votes, outcome, arbs, total, weight, k),
        spec_shares_paid(votes, outcome, arbs, total, weight, k) * weight <= total * spec_majority_weight(votes, outcome, arbs, k),
    decreases k,
{
    if k > 0 {
        let w1 = spec_majority_weight(votes, outcome, arbs, k - 1);
        assert(0 <= w1 <= 100 * (k - 1));
        let v = votes[k - 1];
        assert(v.confidence <= 100);
        assert(arbs.contains_key(v.arbiter));
        assert(w1 <= spec_majority_weight(votes, outcome, arbs, k));
        lemma_shares_bounded(votes, outcome, arbs, total, weight, k - 1);
        let d = spec_shares_paid(votes, outcome, arbs, total, weight, k - 1);
        let last = spec_last_majority(votes, outcome, votes.len() as int);
        assert(k - 1 != last);
        let s = spec_share(votes, outcome, total, weight, k - 1, d);
        if v.favor_contributor == outcome {
            let c = v.confidence as int;
            assert(s == (total * c) / weight);
            assert(s >= 0 && s * weight <= total * c) by (nonlinear_arith)
                requires total > 0, c >= 0, weight > 0, s == (total * c) / weight;
            assert(spec_majority_weight(votes, outcome, arbs, k) == w1 + c);
            assert((d + s) * weight <= total * (w1 + c)) by (nonlinear_arith)
                requires d * weight <= total * w1, s * weight <= total * c, weight > 0;
            assert(d + s <= total) by (nonlinear_arith)
                requires (d + s) * weight <= total * (w1 + c), w1 + c <= weight, total > 0, weight > 0;
        }
    }
}


/// The last majority vote among the first `n` is one, and no later vote is.
proof fn lemma_last_majority(votes: Seq<ArbiterVote>, outcome: bool, n: int)
    requires
        0 <= n <= votes.len(),
    ensures
        -1 <= spec_last_majority(votes, outcome, n) < n,
        spec_last_majority(votes, outcome, n) >= 0 ==> votes[spec_last_majority(votes, outcome, n)].favor_contributor == outcome,
        forall|i: int| spec_last_majority(votes, outcome, n) < i < n ==> #[trigger] votes[i].favor_contributor != outcome,
    decreases n,
{
    if n > 0 {
        lemma_last_majority(votes, outcome, n - 1);
    }
}

/// After settlement the voters hold what they held, less the minority's slashed stake, plus
/// the shares paid to the majority.
proof fn lemma_settle_sum(votes: Seq<ArbiterVote>, outcome: bool, arbs: Map<u64, Arbiter>, n: int)
    requires
        0 <= n <= votes.len(),
        forall|i: int| 0 <= i < votes.len() ==> arbs.contains_key(#[trigger] votes[i].arbiter),
        forall|i: int| 0 <= i < votes.len() ==> #[trigger] arbs[votes[i].arbiter].stake >= 0,
        forall|i: int| 0 <= i < votes.len() ==> #[trigger] votes[i].confidence <= 100,
        votes.len() <= 1_000_000,
        spec_voter_stakes(votes, arbs, votes.len() as int) <= i128::MAX,
        spec_last_majority(votes, outcome, votes.len() as int) >= 0,
    ensures
        ({
            let tt = spec_total_slashed(votes, outcome, arbs, votes.len() as int);
            let ww = spec_majority_weight(votes, outcome, arbs, votes.len() as int);
            let last = spec_last_majority(votes, outcome, votes.len() as int);
            let d = spec_shares_paid(votes, outcome, arbs, tt, ww, n);
            &&& spec_voter_stakes_after(votes, outcome, arbs, n) == spec_voter_stakes(votes, arbs, n) - spec_total_slashed(
                votes,
                outcome,
                arbs,
                n,
            ) + d
            &&& 0 <= d <= tt
            &&& (tt > 0 && ww > 0 && n > last) ==> d == tt
            &&& (tt <= 0 || ww <= 0) ==> d == 0
        }),
    decreases n,
{
    let len = votes.len() as int;
    let tt = spec_total_slashed(votes, outcome, arbs, len);
    let ww = spec_majority_weight(votes, outcome, arbs, len);
    let last = spec_last_majority(votes, outcome, len);
    lemma_settle_steps(votes, outcome, arbs, len);
    lemma_last_majority(votes, outcome, len);
    if n > 0 {
        lemma_settle_sum(votes, outcome, arbs, n - 1);
        lemma_settle_steps(votes, outcome, arbs, n - 1);
        lemma_settle_steps(votes, outcome, arbs, n);
        let i = n - 1;
        let v = votes[i];
        assert(arbs.contains_key(v.arbiter));
        assert(v.confidence <= 100);
        let st = arbs[v.arbiter].stake as int;
        assert(st >= 0);
        let d0 = spec_shares_paid(votes, outcome, arbs, tt, ww, i);
        let sh = spec_share(votes, outcome, tt, ww, i, d0);
        assert(spec_share_at(votes, outcome, arbs, tt, ww, i) == sh);
        if v.favor_contributor != outcome {
            assert(0 <= spec_slash(st) <= st) by (nonlinear_arith)
                requires st >= 0, spec_slash(st) == (st * 1000) / 10_000;
            assert(spec_total_slashed(votes, outcome, arbs, i) + spec_slash(st) <= spec_voter_stakes(votes, arbs, n));
            assert(i != last);
        } else if tt > 0 && ww > 0 {
            assert(i <= last);
            if i < last {
                assert(forall|j: int| 0 <= j <= i + 1 ==> 0 <= #[trigger] spec_majority_weight(votes, outcome, arbs, j) <= 100 * j) by {
                    assert forall|j: int| 0 <= j <= i + 1 implies 0 <= #[trigger] spec_majority_weight(votes, outcome, arbs, j)
                        <= 100 * j by {
                        lemma_settle_steps(votes, outcome, arbs, j);
                    }
                }
                lemma_weight_mono(votes, outcome, arbs, i + 1, len);
                lemma_shares_bounded(votes, outcome, arbs, tt, ww, i);
                let w0 = spec_majority_weight(votes, outcome, arbs, i);
                let c = v.confidence as int;
                assert(spec_majority_weight(votes, outcome, arbs, i + 1) == w0 + c);
                assert(sh == (tt * c) / ww);
                assert(sh >= 0 && sh * ww <= tt * c) by (nonlinear_arith)
                    requires tt > 0, ww > 0, c >= 0, sh == (tt * c) / ww;
                assert(d0 + sh <= tt) by (nonlinear_arith)
                    requires d0 * ww <= tt * w0, sh * ww <= tt * c, w0 + c <= ww, ww > 0, tt > 0;
            } else {
                assert(sh == tt - d0);
            }
        }
    }
}

proof fn lemma_weight_mono(votes: Seq<ArbiterVote>, outcome: bool, arbs: Map<u64, Arbiter>, k: int, m: int)
    requires
        0 <= k <= m <= votes.len(),
        forall|i: int| 0 <= i < votes.len() ==> #[trigger] votes[i].confidence <= 100,
        votes.len() <= 1_000_000,
    ensures
        spec_majority_weight(votes, outcome, arbs, k) <= spec_majority_weight(votes, outcome, arbs, m),
    decreases m,
{
    if m > k {
        lemma_weight_mono(votes, outcome, arbs, k, m - 1);
        lemma_weight_bound(votes, outcome, arbs, m - 1);
        assert(votes[m - 1].confidence <= 100);
    }
}

proof fn lemma_weight_bound(votes: Seq<ArbiterVote>, outcome: bool, arbs: Map<u64, Arbiter>, k: int)
    requires
        0 <= k <= votes.len(),
        forall|i: int| 0 <= i < votes.len() ==> #[trigger] votes[i].confidence <= 100,
    ensures
        0 <= spec_majority_weight(votes, outcome, arbs, k) <= 100 * k,
    decreases k,
{
    if k > 0 {
        lemma_weight_bound(votes, outcome, arbs, k - 1);
        assert(votes[k - 1].confidence <= 100);
    }
}

/// Settling a case moves stake only between its voters: what the minority loses the majority
/// gains, so the voters' stakes add up to what they did. This holds when every voter is on
/// record with a non-negative stake, some vote is in the majority with some confidence, and
/// nothing saturates (confidences are at most 100, there are at most a million votes, and
/// the stakes add up within `i128`).
pub proof fn lemma_settle_conserves_stakes(votes: Seq<ArbiterVote>, outcome: bool, arbs: Map<u64, Arbiter>)
    requires
        forall|i: int| 0 <= i < votes.len() ==> arbs.contains_key(#[trigger] votes[i].arbiter),
        forall|i: int| 0 <= i < votes.len() ==> #[trigger] arbs[votes[i].arbiter].stake >= 0,
        forall|i: int| 0 <= i < votes.len() ==> #[trigger] votes[i].confidence <= 100,
        votes.len() <= 1_000_000,
        spec_voter_stakes(votes, arbs, votes.len() as int) <= i128::MAX,
        spec_last_majority(votes, outcome, votes.len() as int) >= 0,
        spec_majority_weight(votes, outcome, arbs, votes.len() as int) > 0,
    ensures
        spec_voter_stakes_after(votes, outcome, arbs, votes.len() as int) == spec_voter_stakes(votes, arbs, votes.len() as int),
{
    let len = votes.len() as int;
    lemma_settle_sum(votes, outcome, arbs, len);
    lemma_last_majority(votes, outcome, len);
}

/// The exact (unsaturated) total of the scores of the first `n` grants of `ids`.
pub open spec fn spec_raw_total_qf(list: Seq<RoundContribution>, round_id: u32, ids: Seq<u64>, n: int) -> int
    decreases n,
{
    if n <= 0 {
        0
    } else {
        spec_raw_total_qf(list, round_id, ids, n - 1) + spec_qf_score(list, round_id, ids[n - 1]).0
    }
}

/// The sum of the match amounts of the first `n` allocations.
pub open spec fn spec_match_total(allocs: Seq<MatchingAllocation>, n: int) -> int
    decreases n,
{
    if n <= 0 {
        0
    } else {
        spec_match_total(allocs, n - 1) + allocs[n - 1].match_amount
    }
}

proof fn lemma_score_nonneg(list: Seq<RoundContribution>, round_id: u32, grant_id: u64)
    ensures
        spec_qf_score(list, round_id, grant_id).0 >= 0,
{
    let p = spec_qf_parts(list, round_id, grant_id, list.len() as int);
    let x = p.0;
    assert(x * x >= 0) by (nonlinear_arith);
}

/// Below `i128::MAX` the saturating total is the exact one, and each score is at most it.
proof fn lemma_total_exact(list: Seq<RoundContribution>, round_id: u32, ids: Seq<u64>, n: int)
    requires
        0 <= n <= ids.len(),
        spec_raw_total_qf(list, round_id, ids, n) <= i128::MAX,
    ensures
        spec_total_qf(list, round_id, ids, n) == spec_raw_total_qf(list, round_id, ids, n),
        spec_raw_total_qf(list, round_id, ids, n) >= 0,
        forall|i: int| 0 <= i < n ==> #[trigger] spec_qf_score(list, round_id, ids[i]).0 <= spec_raw_total_qf(
            list,
            round_id,
            ids,
            n,
        ),
    decreases n,
{
    if n > 0 {
        lemma_score_nonneg(list, round_id, ids[n - 1]);
        lemma_total_exact(list, round_id, ids, n - 1);
    }
}

/// Each match, times the total, adds up to no more than the scores times the pool.
proof fn lemma_match_total_scaled(list: Seq<RoundContribution>, round_id: u32, ids: Seq<u64>, pool: i128, n: int)
    requires
        0 <= n <= ids.len(),
        pool >= 0,
        spec_raw_total_qf(list, round_id, ids, ids.len() as int) <= i128::MAX,
        spec_total_qf(list, round_id, ids, ids.len() as int) > 0,
    ensures
        spec_match_total(spec_allocations(list, round_id, ids, pool), n) * spec_total_qf(
            list,
            round_id,
            ids,
            ids.len() as int,
        ) <= spec_raw_total_qf(list, round_id, ids, n) * pool,
    decreases n,
{
    let len = ids.len() as int;
    let t = spec_total_qf(list, round_id, ids, len);
    let allocs = spec_allocations(list, round_id, ids, pool);
    if n > 0 {
        lemma_match_total_scaled(list, round_id, ids, pool, n - 1);
        lemma_total_exact(list, round_id, ids, len);
        let q = spec_qf_score(list, round_id, ids[n - 1]).0 as int;
        lemma_score_nonneg(list, round_id, ids[n - 1]);
        assert(q <= t);
        let p = pool as int;
        let m = q * p / t;
        assert(0 <= m <= p && m * t <= q * p) by (nonlinear_arith)
            requires
                0 <= q <= t,
                t > 0,
                p >= 0,
                m == q * p / t,
        ;
        assert(allocs[n - 1] == spec_matched(spec_allocation(list, round_id, ids[n - 1]), pool, t));
        assert(allocs[n - 1].match_amount == m);
        let s0 = spec_match_total(allocs, n - 1);
        let r0 = spec_raw_total_qf(list, round_id, ids, n - 1);
        assert((s0 + m) * t == s0 * t + m * t && (r0 + q) * p == r0 * p + q * p) by (nonlinear_arith);
    }
}

proof fn lemma_match_total_zero(list: Seq<RoundContribution>, round_id: u32, ids: Seq<u64>, pool: i128, n: int)
    requires
        0 <= n <= ids.len(),
        spec_total_qf(list, round_id, ids, ids.len() as int) <= 0,
    ensures
        spec_match_total(spec_allocations(list, round_id, ids, pool), n) == 0,
    decreases n,
{
    if n > 0 {
        lemma_match_total_zero(list, round_id, ids, pool, n - 1);
    }
}

/// Quadratic funding never promises more than the round holds: the match amounts of a
/// round's allocations add up to at most its matching pool, as long as the total of the
/// scores does not saturate `i128`.
pub proof fn lemma_matches_within_pool(list: Seq<RoundContribution>, round_id: u32, ids: Seq<u64>, pool: i128)
    requires
        pool >= 0,
        spec_raw_total_qf(list, round_id, ids, ids.len() as int) <= i128::MAX,
    ensures
        spec_match_total(spec_allocations(list, round_id, ids, pool), ids.len() as int) <= pool,
{
    let len = ids.len() as int;
    let t = spec_total_qf(list, round_id, ids, len);
    if t > 0 {
        lemma_match_total_scaled(list, round_id, ids, pool, len);
        lemma_total_exact(list, round_id, ids, len);
        let s = spec_match_total(spec_allocations(list, round_id, ids, pool), len);
        let p = pool as int;
        assert(s <= p) by (nonlinear_arith)
            requires
                s * t <= t * p,
                t > 0,
        ;
    } else {
        lemma_match_total_zero(list, round_id, ids, pool, len);
    }
}

/// Returning an escrow to its funders, as `refund_all` and the cancellation of a grant do,
/// sends out exactly its balance, when no listed funder's net contribution is negative.
pub proof fn lemma_refunded_all_sends_balance(
    e0: &EscrowBook,
    e1: &EscrowBook,
    t0: Seq<Transfer>,
    t1: Seq<Transfer>,
    grant_id: u64,
)
    requires
        e0.accounts().contains_key(grant_id),
        e0.accounts()[grant_id].balance > 0,
        e0.funder_list(grant_id).len() > 0,
        forall|i: int| 0 <= i < spec_nets(e0, grant_id).len() ==> #[trigger] spec_nets(e0, grant_id)[i] >= 0,
        spec_refund_all_fits(spec_nets(e0, grant_id), e0.accounts()[grant_id].balance as int),
        spec_refunded_all(e0, e1, t0, t1, grant_id),
    ensures
        t0.len() <= t1.len(),
        spec_transfer_sum(t1.subrange(t0.len() as int, t1.len() as int)) == e0.accounts()[grant_id].balance,
{
    let acc = e0.accounts()[grant_id];
    let list = e0.funder_list(grant_id);
    let nets = spec_nets(e0, grant_id);
    let b = acc.balance as int;
    let r = spec_refund_transfers(list, nets, spec_prefix_sum(nets, nets.len() as int), b, acc.token, list.len() as int);
    assert(t1 == t0 + r);
    assert(t1.subrange(t0.len() as int, t1.len() as int) =~= r);
    lemma_refund_all_sums_to_balance(list, nets, b, acc.token);
}

/// The exact (unsaturated) total of the first `n` contributions.
pub open spec fn spec_raw_funds_total(funds: Seq<GrantFund>, n: int) -> int
    decreases n,
{
    if n <= 0 {
        0
    } else {
        spec_raw_funds_total(funds, n - 1) + funds[n - 1].amount
    }
}

proof fn lemma_funds_total_exact(funds: Seq<GrantFund>, n: int)
    requires
        0 <= n <= funds.len(),
        forall|i: int| 0 <= i < funds.len() ==> #[trigger] funds[i].amount >= 0,
        spec_raw_funds_total(funds, n) <= i128::MAX,
    ensures
        spec_funds_total(funds, n) == spec_raw_funds_total(funds, n),
        spec_raw_funds_total(funds, n) >= 0,
        forall|k: int| 0 <= k <= n ==> #[trigger] spec_raw_funds_total(funds, k) <= spec_raw_funds_total(funds, n),
    decreases n,
{
    if n > 0 {
        assert(funds[n - 1].amount >= 0);
        lemma_funds_total_exact(funds, n - 1);
    }
}

/// Before the last funder, what has been returned is non-negative, in proportion to the
/// contributions counted so far, and is what the transfers add up to.
proof fn lemma_returned_before_last(funds: Seq<GrantFund>, amount: int, token: AccountId, k: int)
    requires
        funds.len() > 0,
        0 <= k <= funds.len() - 1,
        0 <= amount <= i128::MAX,
        forall|i: int| 0 <= i < funds.len() ==> #[trigger] funds[i].amount >= 0,
        spec_raw_funds_total(funds, funds.len() as int) <= i128::MAX,
        spec_funds_total(funds, funds.len() as int) > 0,
    ensures
        spec_returned(funds, amount, spec_funds_total(funds, funds.len() as int), k) >= 0,
        spec_returned(funds, amount, spec_funds_total(funds, funds.len() as int), k) * spec_funds_total(
            funds,
            funds.len() as int,
        ) <= amount * spec_raw_funds_total(funds, k),
        spec_transfer_sum(spec_return_transfers(funds, amount, spec_funds_total(funds, funds.len() as int), token, k))
            == spec_returned(funds, amount, spec_funds_total(funds, funds.len() as int), k),
    decreases k,
{
    let n = funds.len() as int;
    let t = spec_funds_total(funds, n);
    if k > 0 {
        lemma_returned_before_last(funds, amount, token, k - 1);
        lemma_funds_total_exact(funds, n);
        let d = spec_returned(funds, amount, t, k - 1);
        let f = funds[k - 1].amount as int;
        let raw0 = spec_raw_funds_total(funds, k - 1);
        let raw1 = spec_raw_funds_total(funds, k);
        assert(raw1 <= t);
        assert(raw0 <= t);
        lemma_funds_total_exact(funds, k - 1);
        assert(f <= t);
        assert(k - 1 != n - 1);
        let sh = spec_return_share(funds, amount, t, k - 1, d);
        assert(sh == crate::arith::div_trunc_signed(f * amount, t));
        assert(f * amount >= 0) by (nonlinear_arith)
            requires
                f >= 0,
                amount >= 0,
        ;
        let q = f * amount / t;
        assert(0 <= q && q * t <= f * amount) by (nonlinear_arith)
            requires
                f * amount >= 0,
                t > 0,
                q == f * amount / t,
        ;
        assert(q <= i128::MAX) by (nonlinear_arith)
            requires
                q * t <= f * amount,
                f <= t,
                t > 0,
                0 <= amount <= i128::MAX,
                q >= 0,
        ;
        assert(sh == q);
        assert((d + q) * t == d * t + q * t && amount * raw1 == amount * raw0 + f * amount) by (nonlinear_arith)
            requires
                raw1 == raw0 + f,
        ;
        assert(d + q <= amount) by (nonlinear_arith)
            requires
                (d + q) * t <= amount * raw1,
                raw1 <= t,
                t > 0,
                amount >= 0,
        ;
        let prev = spec_return_transfers(funds, amount, t, token, k - 1);
        if q > 0 {
            assert(spec_return_transfers(funds, amount, t, token, k).drop_last() == prev);
        }
    }
}

/// Deciding a dispute for the funders returns the disputed amount in full: the transfers
/// to the funders add up to the milestone's amount (the last funder taking what rounding
/// leaves), when no contribution is negative and the contributions add up within `i128`.
pub proof fn lemma_funder_return_sums_to_amount(funds: Seq<GrantFund>, amount: int, token: AccountId)
    requires
        funds.len() > 0,
        0 <= amount <= i128::MAX,
        forall|i: int| 0 <= i < funds.len() ==> #[trigger] funds[i].amount >= 0,
        spec_raw_funds_total(funds, funds.len() as int) <= i128::MAX,
        spec_funds_total(funds, funds.len() as int) > 0,
    ensures
        spec_returned(funds, amount, spec_funds_total(funds, funds.len() as int), funds.len() as int) == amount,
        spec_transfer_sum(
            spec_return_transfers(funds, amount, spec_funds_total(funds, funds.len() as int), token, funds.len() as int),
        ) == amount,
{
    let n = funds.len() as int;
    let t = spec_funds_total(funds, n);
    lemma_funds_total_exact(funds, n);
    lemma_returned_before_last(funds, amount, token, n - 1);
    let d = spec_returned(funds, amount, t, n - 1);
    let raw0 = spec_raw_funds_total(funds, n - 1);
    assert(raw0 <= t);
    assert(d <= amount) by (nonlinear_arith)
        requires
            d * t <= amount * raw0,
            raw0 <= t,
            t > 0,
            amount >= 0,
    ;
    let sh = spec_return_share(funds, amount, t, n - 1, d);
    assert(sh == amount - d);
    let prev = spec_return_transfers(funds, amount, t, token, n - 1);
    if sh > 0 {
        assert(spec_return_transfers(funds, amount, t, token, n).drop_last() == prev);
    }
}

/// A stream's accrual never goes down as ledgers pass: at a later ledger at least as much
/// has accrued as at an earlier one (from its start on).
pub proof fn lemma_accrual_monotone(s: PaymentStream, c1: u32, c2: u32)
    requires
        stream_wf(s),
        s.start_ledger <= c1 <= c2,
    ensures
        spec_accrued(s, c1) <= spec_accrued(s, c2),
{
    if s.status == StreamStatus::Active {
        let e1: int = if c1 >= s.end_ledger { s.end_ledger - s.start_ledger } else { c1 - s.start_ledger };
        let e2: int = if c2 >= s.end_ledger { s.end_ledger - s.start_ledger } else { c2 - s.start_ledger };
        assert(0 <= e1 <= e2);
        let r = s.rate_per_ledger as int;
        assert(e1 * r <= e2 * r) by (nonlinear_arith)
            requires
                0 <= e1 <= e2,
                r > 0,
        ;
    }
}

/// Once its end ledger is reached, an active stream whose rate covers its deposit over its
/// length (as every stream is created) has accrued its whole deposit: what is left to
/// withdraw is the deposit less what was withdrawn, at the end ledger and at every ledger
/// after it.
pub proof fn lemma_accrual_complete_at_end(s: PaymentStream, current: u32)
    requires
        stream_wf(s),
        s.status == StreamStatus::Active,
        s.end_ledger <= current,
        s.deposited <= s.rate_per_ledger * (s.end_ledger - s.start_ledger),
    ensures
        spec_accrued(s, current) == s.deposited - s.withdrawn,
{
    let el: int = s.end_ledger - s.start_ledger;
    let r = s.rate_per_ledger as int;
    assert(el * r == r * el) by (nonlinear_arith);
    let p = crate::arith::clamp_i128(el * r);
    assert(p >= s.deposited);
    assert(min_int(p, s.deposited as int) == s.deposited);
    assert(crate::arith::clamp_i128(s.deposited - s.withdrawn) == s.deposited - s.withdrawn);
}

/// What has accrued to an active stream at a ledger from its start on, plus what was
/// already withdrawn, is the rate times the ledgers elapsed since the start (counting no
/// ledger past the end), capped at the deposit; provided the withdrawals did not exceed
/// that and the product fits in `i128`.
pub proof fn lemma_accrual_is_rate_times_elapsed(s: PaymentStream, current: u32)
    requires
        stream_wf(s),
        s.status == StreamStatus::Active,
        s.start_ledger <= current,
        ({
            let last: int = if current <= s.end_ledger { current as int } else { s.end_ledger as int };
            &&& s.rate_per_ledger * (last - s.start_ledger) <= i128::MAX
            &&& s.withdrawn <= min_int(s.rate_per_ledger * (last - s.start_ledger), s.deposited as int)
        }),
    ensures
        ({
            let last: int = if current <= s.end_ledger { current as int } else { s.end_ledger as int };
            spec_accrued(s, current) + s.withdrawn == min_int(s.rate_per_ledger * (last - s.start_ledger), s.deposited as int)
        }),
{
    let last: int = if current <= s.end_ledger { current as int } else { s.end_ledger as int };
    let el: int = last - s.start_ledger;
    let r = s.rate_per_ledger as int;
    assert(el * r == r * el && r * el >= 0) by (nonlinear_arith)
        requires
            el >= 0,
            r > 0,
    ;
}

/// Disputes are decided by strict majority: when the votes do not overflow, the
/// contributor wins exactly when it has more votes than the funders, the funders exactly
/// when they have more, and a tie (or no vote) decides nothing.
pub proof fn lemma_dispute_majority(votes_contributor: u32, votes_funder: u32)
    requires
        votes_contributor + votes_funder <= u32::MAX,
    ensures
        (spec_dispute_outcome(votes_contributor, votes_funder) == Some(DisputeStatus::ResolvedForContributor))
            <==> votes_contributor > votes_funder,
        (spec_dispute_outcome(votes_contributor, votes_funder) == Some(DisputeStatus::ResolvedForFunder))
            <==> votes_funder > votes_contributor,
        (spec_dispute_outcome(votes_contributor, votes_funder) is None) <==> votes_contributor == votes_funder,
{
}

/// A member's part of a payout is its share of it in basis points, rounded down:
/// `part * 10_000 <= payout * share_bps < (part + 1) * 10_000`, for the member itself.
pub proof fn lemma_allocation_is_share(payout: i128, m: SyndicateMember)
    requires
        payout >= 0,
        payout * m.share_bps <= i128::MAX,
    ensures
        spec_allocation_of(payout, m).0 == m.member,
        spec_allocation_of(payout, m).1 * 10_000 <= payout * m.share_bps < (spec_allocation_of(payout, m).1 + 1)
            * 10_000,
        spec_allocation_of(payout, m).1 >= 0,
{
    let x = payout * m.share_bps;
    assert(x >= 0) by (nonlinear_arith)
        requires
            payout >= 0,
            m.share_bps >= 0,
            x == payout * m.share_bps,
    ;
    let q = x / 10_000;
    assert(q * 10_000 <= x < (q + 1) * 10_000 && q >= 0 && q <= x) by (nonlinear_arith)
        requires
            x >= 0,
            q == x / 10_000,
    ;
}

/// The sum of the shares (in basis points) of the first `n` members.
pub open spec fn spec_shares_total(members: Seq<SyndicateMember>, n: int) -> int
    decreases n,
{
    if n <= 0 { 0 } else { spec_shares_total(members, n - 1) + members[n - 1].share_bps }
}

/// The sum of the first `n` parts of a payout.
pub open spec fn spec_parts_total(parts: Seq<(AccountId, i128)>, n: int) -> int
    decreases n,
{
    if n <= 0 { 0 } else { spec_parts_total(parts, n - 1) + parts[n - 1].1 }
}

proof fn lemma_parts_scaled(payout: i128, members: Seq<SyndicateMember>, n: int)
    requires
        0 <= n <= members.len(),
        payout >= 0,
        forall|i: int| 0 <= i < members.len() ==> #[trigger] members[i].share_bps * payout <= i128::MAX,
    ensures
        spec_parts_total(members.map_values(|m: SyndicateMember| spec_allocation_of(payout, m)), n) * 10_000 <= payout
            * spec_shares_total(members, n),
    decreases n,
{
    if n > 0 {
        lemma_parts_scaled(payout, members, n - 1);
        let m = members[n - 1];
        assert(m.share_bps * payout == payout * m.share_bps) by (nonlinear_arith);
        lemma_allocation_is_share(payout, m);
        let parts = members.map_values(|m: SyndicateMember| spec_allocation_of(payout, m));
        assert(parts[n - 1] == spec_allocation_of(payout, m));
        let p0 = spec_parts_total(parts, n - 1);
        let s0 = spec_shares_total(members, n - 1);
        let a = spec_allocation_of(payout, m).1 as int;
        let b = m.share_bps as int;
        assert((p0 + a) * 10_000 == p0 * 10_000 + a * 10_000 && payout * (s0 + b) == payout * s0 + payout * b)
            by (nonlinear_arith);
    }
}

/// A payout is never split into more than it is: when the members' shares add up to at
/// most 10_000 bps, the parts recorded for them add up to at most the payout.
pub proof fn lemma_allocations_within_payout(payout: i128, members: Seq<SyndicateMember>)
    requires
        payout >= 0,
        spec_shares_total(members, members.len() as int) <= 10_000,
        forall|i: int| 0 <= i < members.len() ==> #[trigger] members[i].share_bps * payout <= i128::MAX,
    ensures
        spec_parts_total(members.map_values(|m: SyndicateMember| spec_allocation_of(payout, m)), members.len() as int)
            <= payout,
{
    let n = members.len() as int;
    lemma_parts_scaled(payout, members, n);
    let t = spec_parts_total(members.map_values(|m: SyndicateMember| spec_allocation_of(payout, m)), n);
    let sh = spec_shares_total(members, n);
    let p = payout as int;
    assert(t <= p) by (nonlinear_arith)
        requires
            t * 10_000 <= p * sh,
            sh <= 10_000,
            p >= 0,
    ;
}

/// The delivery part of a reputation score is the share of attempted milestones that
/// were delivered, out of 5000 bps and rounded down:
/// `d * (completed + rejected) <= completed * 5000 < (d + 1) * (completed + rejected)`.
pub proof fn lemma_delivery_is_share(completed: u32, rejected: u32)
    requires
        0 < completed + rejected <= u32::MAX,
    ensures
        spec_delivery_component(completed as int, rejected as int) * (completed + rejected) <= completed * 5000,
        completed * 5000 < (spec_delivery_component(completed as int, rejected as int) + 1) * (completed + rejected),
{
    let t = completed + rejected;
    let x = completed * 5000;
    let d = x / t;
    assert(d * t <= x < (d + 1) * t) by (nonlinear_arith)
        requires
            t > 0,
            x >= 0,
            d == x / t,
    ;
}

/// A contributor's reputation score, out of 1000, is its points in basis points scaled
/// down and rounded: the points are the delivery share `d` (5000 bps for all attempted
/// milestones delivered, in proportion otherwise, rounded down) plus the earnings share `e`
/// (3000 bps at 10_000_000_000 earned or more, in proportion below, rounded down), less
/// 200 bps per rejection, and never below zero.
pub proof fn lemma_score_from_record(completed: u32, rejected: u32, total_earned: i128, d: int, e: int)
    requires
        completed + rejected <= u32::MAX,
        completed + rejected == 0 ==> d == 0,
        completed + rejected > 0 ==> d * (completed + rejected) <= completed * 5000 < (d + 1) * (completed + rejected),
        total_earned <= 0 ==> e == 0,
        total_earned > 0 ==> e * 10_000_000_000 <= min_int(total_earned as int, 10_000_000_000) * 3000 < (e + 1)
            * 10_000_000_000,
    ensures
        ({
            let points = max_int(d + e - 200 * rejected, 0);
            spec_score(completed as int, rejected as int, total_earned as int) == min_int(points * 1000 / 10_000, 1000)
        }),
{
    let t = completed + rejected;
    if t > 0 {
        lemma_delivery_is_share(completed, rejected);
        let d0 = spec_delivery_component(completed as int, rejected as int);
        assert(d == d0) by (nonlinear_arith)
            requires
                d * t <= completed * 5000 < (d + 1) * t,
                d0 * t <= completed * 5000 < (d0 + 1) * t,
                t > 0,
        ;
        assert(0 <= d <= 5000) by (nonlinear_arith)
            requires
                d * t <= completed * 5000 < (d + 1) * t,
                completed <= t,
                t > 0,
        ;
    }
    if total_earned > 0 {
        let c = min_int(total_earned as int, 10_000_000_000);
        let e0 = (c * 3000) / 10_000_000_000;
        assert(0 < c <= 10_000_000_000);
        assert(e == e0 && 0 <= e <= 3000) by (nonlinear_arith)
            requires
                e * 10_000_000_000 <= c * 3000 < (e + 1) * 10_000_000_000,
                0 < c <= 10_000_000_000,
                e0 == (c * 3000) / 10_000_000_000,
        ;
    }
}

} // verus!
