use vstd::prelude::*;

use crate::arith::div_trunc_signed;
use crate::constants::{CONTRACT_ACCOUNT, MAX_BATCH_SIZE};
use crate::errors::ContractError;
use crate::grants::{credit_funder, spec_credit_fits, spec_credit_funder, GrantBook, GrantFund, GrantView};
use crate::keys::Transfer;
use crate::types::{AccountId, BatchResult, GrantStatus};

verus! {

/// The outcome of one item of a batch.
#[derive(Clone, Copy, Debug, PartialEq, Eq)]
pub struct BatchItemResult {
    pub index: u32,
    pub success: bool,
    pub error_code: Option<u32>,
}

/// The per-item outcomes of a batch and their tally.
#[derive(Clone, Debug)]
pub struct BatchOutcome {
    pub summary: BatchResult,
    pub results: Vec<BatchItemResult>,
}

/// A batch must hold between one and `MAX_BATCH_SIZE` items.
pub fn validate_batch_size(len: u32) -> (r: Result<(), ContractError>)
    ensures
        len == 0 ==> r == Err::<(), ContractError>(ContractError::BatchEmpty),
        len > MAX_BATCH_SIZE ==> r == Err::<(), ContractError>(ContractError::BatchTooLarge),
        0 < len <= MAX_BATCH_SIZE ==> r == Ok::<(), ContractError>(()),
{
    if len == 0 {
        return Err(ContractError::BatchEmpty);
    }
    if len > MAX_BATCH_SIZE {
        return Err(ContractError::BatchTooLarge);
    }
    Ok(())
}

pub fn item_success(index: u32) -> (r: BatchItemResult)
    ensures
        r == (BatchItemResult { index, success: true, error_code: None }),
{
    BatchItemResult { index, success: true, error_code: None }
}

pub fn item_failure(index: u32, error: ContractError) -> (r: BatchItemResult)
    ensures
        r == (BatchItemResult { index, success: false, error_code: Some(error.spec_code()) }),
{
    BatchItemResult { index, success: false, error_code: Some(error.code()) }
}

/// Number of successful items among the first `n` results.
pub open spec fn count_success(results: Seq<BatchItemResult>, n: int) -> int
    decreases n,
{
    if n <= 0 { 0 } else { count_success(results, n - 1) + if results[n - 1].success { 1int } else { 0int } }
}

proof fn lemma_count_success_bounds(results: Seq<BatchItemResult>, n: int)
    requires
        0 <= n,
    ensures
        0 <= count_success(results, n) <= n,
    decreases n,
{
    if n > 0 {
        lemma_count_success_bounds(results, n - 1);
    }
}

/// Tally the outcomes: every item is counted once, as a success or as a failure.
pub fn build_batch_result(results: Vec<BatchItemResult>) -> (r: BatchOutcome)
    requires
        results.len() <= u32::MAX,
    ensures
        r.results@ == results@,
        r.summary.total == results.len(),
        r.summary.successful == count_success(results@, results.len() as int),
        r.summary.successful + r.summary.failed == r.summary.total,
{
    let total = results.len() as u32;
    let mut succeeded: u32 = 0;
    let mut failed: u32 = 0;
    let mut i: usize = 0;
    while i < results.len()
        invariant
            i <= results.len() <= u32::MAX,
            succeeded == count_success(results@, i as int),
            succeeded + failed == i,
        decreases results.len() - i,
    {
        proof {
            lemma_count_success_bounds(results@, i as int);
        }
        if results[i].success {
            succeeded += 1;
        } else {
            failed += 1;
        }
        i += 1;
    }
    BatchOutcome { summary: BatchResult { successful: succeeded, failed, total }, results }
}


/// What funding `grant_id` with `amount` of `token` from `funder` does to the grants `m` and
/// the transfers `t`: the outcome, the grants after, the transfers after. The tokens move
/// before the balance is updated, so a balance or funder-entry overflow leaves the transfer
/// made and the grant unchanged.
pub open spec fn spec_try_fund(
    m: Map<u64, GrantView>,
    t: Seq<Transfer>,
    funder: AccountId,
    token: AccountId,
    grant_id: u64,
    amount: i128,
) -> (Result<(), ContractError>, Map<u64, GrantView>, Seq<Transfer>) {
    let g = m[grant_id];
    if amount <= 0 {
        (Err(ContractError::InvalidInput), m, t)
    } else if !m.contains_key(grant_id) {
        (Err(ContractError::GrantNotFound), m, t)
    } else if g.token != token {
        (Err(ContractError::InvalidInput), m, t)
    } else if g.status != GrantStatus::Active {
        (Err(ContractError::InvalidState), m, t)
    } else {
        let t2 = t.push(Transfer { token: g.token, from: funder, to: CONTRACT_ACCOUNT, amount });
        if g.escrow_balance + amount > i128::MAX || !spec_credit_fits(g.funders, funder, amount as int) {
            (Err(ContractError::InvalidInput), m, t2)
        } else {
            (
                Ok(()),
                m.insert(
                    grant_id,
                    GrantView {
                        escrow_balance: (g.escrow_balance + amount) as i128,
                        funders: spec_credit_funder(g.funders, funder, amount as int),
                        ..g
                    },
                ),
                t2,
            )
        }
    }
}

/// The batch item for outcome `r` at position `index`.
pub open spec fn spec_item(index: int, r: Result<(), ContractError>) -> BatchItemResult {
    match r {
        Ok(_) => BatchItemResult { index: index as u32, success: true, error_code: None },
        Err(e) => BatchItemResult { index: index as u32, success: false, error_code: Some(e.spec_code()) },
    }
}

/// Fund one grant for a batch: move the tokens into the contract and credit the grant's
/// balance and the funder's entry.
pub fn try_fund_grant(
    grants: &mut GrantBook,
    funder: AccountId,
    token: AccountId,
    grant_id: u64,
    amount: i128,
    transfers: &mut Vec<Transfer>,
) -> (r: Result<(), ContractError>)
    ensures
        (r, final(grants).views(), final(transfers)@) == spec_try_fund(old(grants).views(), old(transfers)@, funder, token,
            grant_id, amount),
        final(grants).counter() == old(grants).counter(),
{
    if amount <= 0 {
        return Err(ContractError::InvalidInput);
    }
    let ghost m = grants.views();
    let mut grant = match grants.take(grant_id) {
        Some(g) => g,
        None => return Err(ContractError::GrantNotFound),
    };
    proof {
        assert(m.remove(grant_id).insert(grant_id, grant@) =~= m);
    }
    if grant.token != token {
        grants.set(grant_id, grant);
        assert(grants.views() =~= m);
        return Err(ContractError::InvalidInput);
    }
    if grant.status != GrantStatus::Active {
        grants.set(grant_id, grant);
        assert(grants.views() =~= m);
        return Err(ContractError::InvalidState);
    }
    transfers.push(Transfer { token: grant.token, from: funder, to: CONTRACT_ACCOUNT, amount });
    let new_balance = match grant.escrow_balance.checked_add(amount) {
        Some(b) => b,
        None => {
            grants.set(grant_id, grant);
            assert(grants.views() =~= m);
            return Err(ContractError::InvalidInput);
        },
    };
    let ghost before = grant@;
    if !credit_funder(&mut grant.funders, funder, amount) {
        assert(grant@ == before);
        grants.set(grant_id, grant);
        assert(grants.views() =~= m);
        return Err(ContractError::InvalidInput);
    }
    grant.escrow_balance = new_balance;
    grants.set(grant_id, grant);
    proof {
        let g = m[grant_id];
        assert(grants.views() =~= m.insert(
            grant_id,
            GrantView {
                escrow_balance: (g.escrow_balance + amount) as i128,
                funders: spec_credit_funder(g.funders, funder, amount as int),
                ..g
            },
        ));
    }
    Ok(())
}

/// Funding `items` in order from state (`m`, `t`): the grants and transfers after the first
/// `n` items, and their outcomes.
pub open spec fn spec_fund_batch(
    m: Map<u64, GrantView>,
    t: Seq<Transfer>,
    funder: AccountId,
    token: AccountId,
    items: Seq<(u64, i128)>,
    n: int,
) -> (Map<u64, GrantView>, Seq<Transfer>, Seq<BatchItemResult>)
    decreases n,
{
    if n <= 0 {
        (m, t, Seq::empty())
    } else {
        let prev = spec_fund_batch(m, t, funder, token, items, n - 1);
        let step = spec_try_fund(prev.0, prev.1, funder, token, items[n - 1].0, items[n - 1].1);
        (step.1, step.2, prev.2.push(spec_item(n - 1, step.0)))
    }
}

proof fn lemma_fund_batch_len(
    m: Map<u64, GrantView>,
    t: Seq<Transfer>,
    funder: AccountId,
    token: AccountId,
    items: Seq<(u64, i128)>,
    n: int,
)
    requires
        0 <= n,
    ensures
        spec_fund_batch(m, t, funder, token, items, n).2.len() == n,
    decreases n,
{
    if n > 0 {
        lemma_fund_batch_len(m, t, funder, token, items, n - 1);
    }
}

/// Fund several grants in the same token; each item succeeds or fails on its own.
pub fn batch_fund_grants(
    grants: &mut GrantBook,
    funder: AccountId,
    token: AccountId,
    items: &Vec<(u64, i128)>,
    transfers: &mut Vec<Transfer>,
) -> (r: Result<BatchOutcome, ContractError>)
    ensures
        items.len() == 0 ==> r == Err::<BatchOutcome, ContractError>(ContractError::BatchEmpty),
        items.len() > MAX_BATCH_SIZE ==> r == Err::<BatchOutcome, ContractError>(ContractError::BatchTooLarge),
        r is Err ==> final(grants).views() == old(grants).views() && final(transfers)@ == old(transfers)@,
        0 < items.len() <= MAX_BATCH_SIZE ==> r is Ok && {
            let res = spec_fund_batch(old(grants).views(), old(transfers)@, funder, token, items@, items.len() as int);
            &&& final(grants).views() == res.0
            &&& final(transfers)@ == res.1
            &&& r->Ok_0.results@ == res.2
            &&& r->Ok_0.summary.total == items.len()
            &&& r->Ok_0.summary.successful == count_success(res.2, items.len() as int)
            &&& r->Ok_0.summary.successful + r->Ok_0.summary.failed == items.len()
        },
        final(grants).counter() == old(grants).counter(),
{
    if items.len() == 0 {
        return Err(ContractError::BatchEmpty);
    }
    if items.len() > MAX_BATCH_SIZE as usize {
        return Err(ContractError::BatchTooLarge);
    }
    let ghost m0 = grants.views();
    let ghost t0 = transfers@;
    let mut results: Vec<BatchItemResult> = Vec::new();
    let mut i: usize = 0;
    while i < items.len()
        invariant
            i <= items.len() <= MAX_BATCH_SIZE,
            ({
                let res = spec_fund_batch(m0, t0, funder, token, items@, i as int);
                &&& grants.views() == res.0
                &&& transfers@ == res.1
                &&& results@ == res.2
            }),
            results.len() == i,
            grants.counter() == old(grants).counter(),
        decreases items.len() - i,
    {
        proof {
            lemma_fund_batch_len(m0, t0, funder, token, items@, i as int + 1);
        }
        let (gid, amount) = items[i];
        let r = try_fund_grant(grants, funder, token, gid, amount, transfers);
        let item = match r {
            Ok(()) => item_success(i as u32),
            Err(e) => item_failure(i as u32, e),
        };
        results.push(item);
        i += 1;
    }
    Ok(build_batch_result(results))
}


/// Sum of the amounts of the first `k` funder entries.
pub open spec fn spec_fund_sum(funds: Seq<GrantFund>, k: int) -> int
    decreases k,
{
    if k <= 0 { 0 } else { spec_fund_sum(funds, k - 1) + funds[k - 1].amount }
}

/// Whether `a * b` leaves `i128`.
pub open spec fn spec_mul_overflows(a: int, b: int) -> bool {
    a * b > i128::MAX || a * b < i128::MIN
}

/// The share of the balance `b` owed to an entry of `a` out of contributions `total`,
/// truncated toward zero.
pub open spec fn spec_cancel_share(a: int, b: int, total: int) -> int {
    div_trunc_signed(a * b, total)
}

/// Total of the shares of the first `k` entries.
pub open spec fn spec_cancel_distributed(funds: Seq<GrantFund>, b: int, total: int, k: int) -> int
    decreases k,
{
    if k <= 0 {
        0
    } else {
        spec_cancel_distributed(funds, b, total, k - 1) + spec_cancel_share(funds[k - 1].amount as int, b, total)
    }
}

/// The first entry at or after `i`, short of the last, whose share cannot be computed in
/// `i128`; the number of entries when there is none.
pub open spec fn spec_cancel_stop_from(funds: Seq<GrantFund>, b: int, i: int) -> int
    decreases funds.len() - i,
{
    if i < 0 || i >= funds.len() - 1 {
        funds.len() as int
    } else if spec_mul_overflows(funds[i].amount as int, b) {
        i
    } else {
        spec_cancel_stop_from(funds, b, i + 1)
    }
}

/// What the `i`-th entry is refunded: its share, or for the last entry what the others
/// left of the balance.
pub open spec fn spec_cancel_refund_at(funds: Seq<GrantFund>, b: int, total: int, i: int) -> int {
    if i == funds.len() - 1 {
        b - spec_cancel_distributed(funds, b, total, i)
    } else {
        spec_cancel_share(funds[i].amount as int, b, total)
    }
}

/// The refunds paid to the first `k` entries (only positive amounts move).
pub open spec fn spec_cancel_transfers(funds: Seq<GrantFund>, b: int, total: int, token: AccountId, k: int) -> Seq<
    Transfer,
>
    decreases k,
{
    if k <= 0 {
        Seq::empty()
    } else {
        let prev = spec_cancel_transfers(funds, b, total, token, k - 1);
        let a = spec_cancel_refund_at(funds, b, total, k - 1);
        if a > 0 {
            prev.push(Transfer { token, from: CONTRACT_ACCOUNT, to: funds[k - 1].funder, amount: a as i128 })
        } else {
            prev
        }
    }
}

/// Whether `caller` may cancel `g` and `g` can still be cancelled.
pub open spec fn spec_cancel_allowed(g: GrantView, caller: AccountId, global_admin: Option<AccountId>) -> bool {
    (g.owner == caller || global_admin == Some(caller)) && g.status == GrantStatus::Active && g.milestones_paid_out
        < g.total_milestones
}

/// The refund arithmetic of cancelling `g` stays within `i128`: the running totals of the
/// contributions, of the shares paid before a failing one, and the last entry's remainder.
pub open spec fn spec_cancel_fits(g: GrantView) -> bool {
    let funds = g.funders;
    let n = funds.len() as int;
    let b = g.escrow_balance as int;
    let total = spec_fund_sum(funds, n);
    let stop = spec_cancel_stop_from(funds, b, 0);
    b > 0 ==> {
        &&& forall|k: int| 0 <= k <= n ==> i128::MIN <= #[trigger] spec_fund_sum(funds, k) <= i128::MAX
        &&& total > 0 ==> forall|k: int|
            0 <= k <= stop && k < n ==> i128::MIN <= #[trigger] spec_cancel_distributed(funds, b, total, k) <= i128::MAX
        &&& total > 0 && stop == n && n > 0 ==> i128::MIN <= b - spec_cancel_distributed(funds, b, total, n - 1)
            <= i128::MAX
    }
}

/// What cancelling `grant_id` for `caller` does to the grants `m` and the transfers `t`:
/// the escrowed balance goes back to the funders in proportion to their contributions (the
/// last entry receiving the remainder), and the grant is marked cancelled. A share that
/// cannot be computed stops the refunds with the payments made so far and the grant as it was.
pub open spec fn spec_try_cancel(
    m: Map<u64, GrantView>,
    t: Seq<Transfer>,
    caller: AccountId,
    global_admin: Option<AccountId>,
    grant_id: u64,
    reason: Seq<char>,
    now: u64,
) -> (Result<(), ContractError>, Map<u64, GrantView>, Seq<Transfer>) {
    let g = m[grant_id];
    let funds = g.funders;
    let n = funds.len() as int;
    let b = g.escrow_balance as int;
    let total = spec_fund_sum(funds, n);
    let stop = spec_cancel_stop_from(funds, b, 0);
    let cancelled = m.insert(
        grant_id,
        GrantView { status: GrantStatus::Cancelled, escrow_balance: 0, reason: Some(reason), timestamp: now, ..g },
    );
    if !m.contains_key(grant_id) {
        (Err(ContractError::GrantNotFound), m, t)
    } else if g.owner != caller && global_admin != Some(caller) {
        (Err(ContractError::Unauthorized), m, t)
    } else if g.status != GrantStatus::Active || g.milestones_paid_out >= g.total_milestones {
        (Err(ContractError::InvalidState), m, t)
    } else if b <= 0 {
        (Ok(()), cancelled, t)
    } else if total <= 0 {
        (Err(ContractError::InvalidInput), m, t)
    } else if stop < n {
        (Err(ContractError::InvalidInput), m, t + spec_cancel_transfers(funds, b, total, g.token, stop))
    } else {
        (Ok(()), cancelled, t + spec_cancel_transfers(funds, b, total, g.token, n))
    }
}

proof fn lemma_cancel_stop_bounds(funds: Seq<GrantFund>, b: int, i: int)
    requires
        0 <= i <= funds.len(),
    ensures
        i <= spec_cancel_stop_from(funds, b, i) <= funds.len(),
    decreases funds.len() - i,
{
    if i < funds.len() - 1 && !spec_mul_overflows(funds[i].amount as int, b) {
        lemma_cancel_stop_bounds(funds, b, i + 1);
    }
}

proof fn lemma_cancel_transfers_unfold(funds: Seq<GrantFund>, b: int, total: int, token: AccountId, k: int)
    requires
        0 <= k,
    ensures
        spec_cancel_transfers(funds, b, total, token, k + 1) == if spec_cancel_refund_at(funds, b, total, k) > 0 {
            spec_cancel_transfers(funds, b, total, token, k).push(
                Transfer {
                    token,
                    from: CONTRACT_ACCOUNT,
                    to: funds[k].funder,
                    amount: spec_cancel_refund_at(funds, b, total, k) as i128,
                },
            )
        } else {
            spec_cancel_transfers(funds, b, total, token, k)
        },
{
}

/// Cancel one grant for a batch, refunding its escrowed balance to its funders.
pub fn try_cancel_grant(
    grants: &mut GrantBook,
    caller: AccountId,
    global_admin: Option<AccountId>,
    grant_id: u64,
    reason: &String,
    now: u64,
    transfers: &mut Vec<Transfer>,
) -> (r: Result<(), ContractError>)
    requires
        old(grants).views().contains_key(grant_id) && spec_cancel_allowed(old(grants).views()[grant_id], caller, global_admin)
            ==> spec_cancel_fits(old(grants).views()[grant_id]),
    ensures
        (r, final(grants).views(), final(transfers)@) == spec_try_cancel(old(grants).views(), old(transfers)@, caller,
            global_admin, grant_id, reason@, now),
        final(grants).counter() == old(grants).counter(),
{
    let ghost m = grants.views();
    let ghost t0 = transfers@;
    let mut grant = match grants.take(grant_id) {
        Some(g) => g,
        None => return Err(ContractError::GrantNotFound),
    };
    proof {
        assert(m.remove(grant_id).insert(grant_id, grant@) =~= m);
    }
    let caller_is_owner = grant.owner == caller;
    let caller_is_admin = match global_admin {
        Some(a) => a == caller,
        None => false,
    };
    if !caller_is_owner && !caller_is_admin {
        grants.set(grant_id, grant);
        assert(grants.views() =~= m);
        return Err(ContractError::Unauthorized);
    }
    if grant.status != GrantStatus::Active || grant.milestones_paid_out >= grant.total_milestones {
        grants.set(grant_id, grant);
        assert(grants.views() =~= m);
        return Err(ContractError::InvalidState);
    }
    let ghost funds = grant.funders@;
    let balance = grant.escrow_balance;
    if balance > 0 {
        let n = grant.funders.len();
        let mut total: i128 = 0;
        let mut k: usize = 0;
        while k < n
            invariant
                n == grant.funders.len(),
                funds == grant.funders@,
                k <= n,
                total == spec_fund_sum(funds, k as int),
                spec_cancel_fits(grant@),
                balance == grant.escrow_balance,
                balance > 0,
            decreases n - k,
        {
            assert(i128::MIN <= spec_fund_sum(funds, k as int + 1) <= i128::MAX);
            total = total + grant.funders[k].amount;
            k += 1;
        }
        if total <= 0 {
            grants.set(grant_id, grant);
            assert(grants.views() =~= m);
            return Err(ContractError::InvalidInput);
        }
        let ghost stop = spec_cancel_stop_from(funds, balance as int, 0);
        proof {
            lemma_cancel_stop_bounds(funds, balance as int, 0);
        }
        let mut distributed: i128 = 0;
        let mut i: usize = 0;
        while i < n
            invariant
                n == grant.funders.len(),
                funds == grant.funders@,
                i <= n,
                n > 0,
                total == spec_fund_sum(funds, n as int),
                total > 0,
                spec_cancel_fits(grant@),
                balance == grant.escrow_balance,
                balance > 0,
                stop == spec_cancel_stop_from(funds, balance as int, 0),
                i <= stop,
                i < n ==> spec_cancel_stop_from(funds, balance as int, i as int) == stop,
                i < n ==> distributed == spec_cancel_distributed(funds, balance as int, total as int, i as int),
                transfers@ == t0 + spec_cancel_transfers(funds, balance as int, total as int, grant.token, i as int),
                m.contains_key(grant_id),
                spec_cancel_allowed(m[grant_id], caller, global_admin),
                grant@ == m[grant_id],
                grants.grants() == old(grants).grants().remove(grant_id),
                m == old(grants).views(),
                t0 == old(transfers)@,
                grants.counter() == old(grants).counter(),
            decreases n - i,
        {
            let fund = grant.funders[i];
            let is_last = i + 1 == n;
            proof {
                lemma_cancel_transfers_unfold(funds, balance as int, total as int, grant.token, i as int);
            }
            let refund_amount = if is_last {
                assert(stop == n);
                balance - distributed
            } else {
                let p = match fund.amount.checked_mul(balance) {
                    Some(p) => p,
                    None => {
                        assert(spec_cancel_stop_from(funds, balance as int, i as int) == i);
                        assert(transfers@ == t0 + spec_cancel_transfers(funds, balance as int, total as int, grant.token, stop));
                        grants.set(grant_id, grant);
                        assert(grants.views() =~= m);
                        return Err(ContractError::InvalidInput);
                    },
                };
                let q = match p.checked_div(total) {
                    Some(q) => q,
                    None => 0,
                };
                assert(q == spec_cancel_share(funds[i as int].amount as int, balance as int, total as int));
                assert(i + 1 <= stop) by {
                    lemma_cancel_stop_bounds(funds, balance as int, i as int + 1);
                    assert(spec_cancel_stop_from(funds, balance as int, i as int) == spec_cancel_stop_from(
                        funds,
                        balance as int,
                        i as int + 1,
                    ));
                }
                assert(i128::MIN <= spec_cancel_distributed(funds, balance as int, total as int, i as int + 1)
                    <= i128::MAX);
                distributed = distributed + q;
                q
            };
            assert(refund_amount == spec_cancel_refund_at(funds, balance as int, total as int, i as int));
            if refund_amount > 0 {
                transfers.push(Transfer { token: grant.token, from: CONTRACT_ACCOUNT, to: fund.funder, amount: refund_amount });
            }
            proof {
                assert(transfers@ =~= t0 + spec_cancel_transfers(funds, balance as int, total as int, grant.token, i as int + 1));
            }
            i += 1;
        }
    }
    grant.status = GrantStatus::Cancelled;
    grant.escrow_balance = 0;
    grant.reason = Some(reason.clone());
    grant.timestamp = now;
    grants.set(grant_id, grant);
    proof {
        let g = m[grant_id];
        assert(grants.views() =~= m.insert(
            grant_id,
            GrantView { status: GrantStatus::Cancelled, escrow_balance: 0, reason: Some(reason@), timestamp: now, ..g },
        ));
        if balance <= 0 {
            assert(transfers@ =~= t0);
        }
    }
    Ok(())
}


/// Cancelling `ids` in order from state (`m`, `t`): the grants and transfers after the first
/// `n` ids, and their outcomes.
pub open spec fn spec_cancel_batch(
    m: Map<u64, GrantView>,
    t: Seq<Transfer>,
    caller: AccountId,
    global_admin: Option<AccountId>,
    ids: Seq<u64>,
    reason: Seq<char>,
    now: u64,
    n: int,
) -> (Map<u64, GrantView>, Seq<Transfer>, Seq<BatchItemResult>)
    decreases n,
{
    if n <= 0 {
        (m, t, Seq::empty())
    } else {
        let prev = spec_cancel_batch(m, t, caller, global_admin, ids, reason, now, n - 1);
        let step = spec_try_cancel(prev.0, prev.1, caller, global_admin, ids[n - 1], reason, now);
        (step.1, step.2, prev.2.push(spec_item(n - 1, step.0)))
    }
}

/// Every cancellation of the batch that gets as far as its refunds keeps them within `i128`.
pub open spec fn spec_cancel_batch_fits(
    m: Map<u64, GrantView>,
    t: Seq<Transfer>,
    caller: AccountId,
    global_admin: Option<AccountId>,
    ids: Seq<u64>,
    reason: Seq<char>,
    now: u64,
) -> bool {
    forall|k: int|
        0 <= k < ids.len() ==> {
            let st = #[trigger] spec_cancel_batch(m, t, caller, global_admin, ids, reason, now, k);
            st.0.contains_key(ids[k]) && spec_cancel_allowed(st.0[ids[k]], caller, global_admin) ==> spec_cancel_fits(
                st.0[ids[k]],
            )
        }
}

proof fn lemma_cancel_batch_len(
    m: Map<u64, GrantView>,
    t: Seq<Transfer>,
    caller: AccountId,
    global_admin: Option<AccountId>,
    ids: Seq<u64>,
    reason: Seq<char>,
    now: u64,
    n: int,
)
    requires
        0 <= n,
    ensures
        spec_cancel_batch(m, t, caller, global_admin, ids, reason, now, n).2.len() == n,
    decreases n,
{
    if n > 0 {
        lemma_cancel_batch_len(m, t, caller, global_admin, ids, reason, now, n - 1);
    }
}

/// Cancel several grants; each item succeeds or fails on its own.
pub fn batch_cancel_grants(
    grants: &mut GrantBook,
    caller: AccountId,
    global_admin: Option<AccountId>,
    grant_ids: &Vec<u64>,
    reason: &String,
    now: u64,
    transfers: &mut Vec<Transfer>,
) -> (r: Result<BatchOutcome, ContractError>)
    requires
        spec_cancel_batch_fits(old(grants).views(), old(transfers)@, caller, global_admin, grant_ids@, reason@, now),
    ensures
        grant_ids.len() == 0 ==> r == Err::<BatchOutcome, ContractError>(ContractError::BatchEmpty),
        grant_ids.len() > MAX_BATCH_SIZE ==> r == Err::<BatchOutcome, ContractError>(ContractError::BatchTooLarge),
        r is Err ==> final(grants).views() == old(grants).views() && final(transfers)@ == old(transfers)@,
        0 < grant_ids.len() <= MAX_BATCH_SIZE ==> r is Ok && {
            let res = spec_cancel_batch(old(grants).views(), old(transfers)@, caller, global_admin, grant_ids@, reason@, now,
                grant_ids.len() as int);
            &&& final(grants).views() == res.0
            &&& final(transfers)@ == res.1
            &&& r->Ok_0.results@ == res.2
            &&& r->Ok_0.summary.total == grant_ids.len()
            &&& r->Ok_0.summary.successful == count_success(res.2, grant_ids.len() as int)
            &&& r->Ok_0.summary.successful + r->Ok_0.summary.failed == grant_ids.len()
        },
        final(grants).counter() == old(grants).counter(),
{
    if grant_ids.len() == 0 {
        return Err(ContractError::BatchEmpty);
    }
    if grant_ids.len() > MAX_BATCH_SIZE as usize {
        return Err(ContractError::BatchTooLarge);
    }
    let ghost m0 = grants.views();
    let ghost t0 = transfers@;
    let mut results: Vec<BatchItemResult> = Vec::new();
    let mut i: usize = 0;
    while i < grant_ids.len()
        invariant
            i <= grant_ids.len() <= MAX_BATCH_SIZE,
            spec_cancel_batch_fits(m0, t0, caller, global_admin, grant_ids@, reason@, now),
            ({
                let res = spec_cancel_batch(m0, t0, caller, global_admin, grant_ids@, reason@, now, i as int);
                &&& grants.views() == res.0
                &&& transfers@ == res.1
                &&& results@ == res.2
            }),
            results.len() == i,
            grants.counter() == old(grants).counter(),
        decreases grant_ids.len() - i,
    {
        proof {
            lemma_cancel_batch_len(m0, t0, caller, global_admin, grant_ids@, reason@, now, i as int + 1);
            let _ = spec_cancel_batch(m0, t0, caller, global_admin, grant_ids@, reason@, now, i as int);
        }
        let gid = grant_ids[i];
        let r = try_cancel_grant(grants, caller, global_admin, gid, reason, now, transfers);
        let item = match r {
            Ok(()) => item_success(i as u32),
            Err(e) => item_failure(i as u32, e),
        };
        results.push(item);
        i += 1;
    }
    Ok(build_batch_result(results))
}

} // verus!
