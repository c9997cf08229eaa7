use vstd::prelude::*;
use std::collections::HashMap;

use crate::arith::{clamp_i128, div_trunc_signed};
use crate::constants::CONTRACT_ACCOUNT;
use crate::errors::ContractError;
use crate::grants::{Grant, GrantFund};
use crate::keys::{lemma_pair_key_injective, pair_key, spec_pair_key, Transfer};
use crate::types::{AccountId, DisputeStatus};

verus! {

broadcast use vstd::std_specs::hash::group_hash_axioms;

/// A dispute over one milestone of a grant.
#[derive(Debug)]
pub struct Dispute {
    pub grant_id: u64,
    pub milestone_idx: u32,
    pub raised_by: AccountId,
    pub reason: String,
    pub status: DisputeStatus,
    pub arbiters: Vec<AccountId>,
    pub votes_contributor: u32,
    pub votes_funder: u32,
    pub raised_at: u64,
    pub resolved_at: Option<u64>,
}

/// A dispute as a mathematical value.
pub struct DisputeView {
    pub grant_id: u64,
    pub milestone_idx: u32,
    pub raised_by: AccountId,
    pub reason: Seq<char>,
    pub status: DisputeStatus,
    pub arbiters: Seq<AccountId>,
    pub votes_contributor: u32,
    pub votes_funder: u32,
    pub raised_at: u64,
    pub resolved_at: Option<u64>,
}

impl View for Dispute {
    type V = DisputeView;

    open spec fn view(&self) -> DisputeView {
        DisputeView {
            grant_id: self.grant_id,
            milestone_idx: self.milestone_idx,
            raised_by: self.raised_by,
            reason: self.reason@,
            status: self.status,
            arbiters: self.arbiters@,
            votes_contributor: self.votes_contributor,
            votes_funder: self.votes_funder,
            raised_at: self.raised_at,
            resolved_at: self.resolved_at,
        }
    }
}

impl Dispute {
    /// A field-by-field copy.
    pub fn duplicate(&self) -> (r: Dispute)
        ensures
            r@ == self@,
    {
        let arbiters = self.arbiters.clone();
        assert(arbiters@ =~= self.arbiters@);
        Dispute {
            grant_id: self.grant_id,
            milestone_idx: self.milestone_idx,
            raised_by: self.raised_by,
            reason: self.reason.clone(),
            status: self.status,
            arbiters,
            votes_contributor: self.votes_contributor,
            votes_funder: self.votes_funder,
            raised_at: self.raised_at,
            resolved_at: self.resolved_at,
        }
    }
}

/// The disputes, one per (grant, milestone).
pub struct DisputeBook {
    disputes: HashMap<u128, Dispute>,
}

impl DisputeBook {
    /// The dispute over milestone `idx` of grant `grant_id`, if one was raised.
    pub closed spec fn dispute(&self, grant_id: u64, idx: u32) -> Option<DisputeView> {
        let k = spec_pair_key(grant_id, idx as u64);
        if self.disputes@.contains_key(k) { Some(self.disputes@[k]@) } else { None }
    }

    /// Each dispute is stored under its own grant and milestone.
    pub open spec fn wf(&self) -> bool {
        forall|g: u64, i: u32| #[trigger] self.dispute(g, i) is Some ==> self.dispute(g, i)->0.grant_id == g
            && self.dispute(g, i)->0.milestone_idx == i
    }

    pub fn new() -> (b: DisputeBook)
        ensures
            b.wf(),
            forall|g: u64, i: u32| #[trigger] b.dispute(g, i) is None,
    {
        DisputeBook { disputes: HashMap::new() }
    }

    pub fn get(&self, grant_id: u64, idx: u32) -> (r: Option<&Dispute>)
        ensures
            match r {
                Some(d) => self.dispute(grant_id, idx) == Some(d@),
                None => self.dispute(grant_id, idx) is None,
            },
    {
        self.disputes.get(&pair_key(grant_id, idx as u64))
    }

    /// Store a dispute under its grant and milestone.
    pub fn set(&mut self, dispute: Dispute)
        requires
            old(self).wf(),
        ensures
            final(self).wf(),
            forall|g: u64, i: u32| #[trigger] final(self).dispute(g, i) == if g == dispute.grant_id && i == dispute.milestone_idx {
                Some(dispute@)
            } else {
                old(self).dispute(g, i)
            },
    {
        let ghost d = dispute;
        let k = pair_key(dispute.grant_id, dispute.milestone_idx as u64);
        self.disputes.insert(k, dispute);
        proof {
            assert forall|g: u64, i: u32| #[trigger] self.dispute(g, i) == if g == d.grant_id && i == d.milestone_idx {
                Some(d@)
            } else {
                old(self).dispute(g, i)
            } by {
                lemma_pair_key_injective(g, i as u64, d.grant_id, d.milestone_idx as u64);
            }
        }
    }

    /// Raise a dispute over milestone `milestone_idx` of `grant`; only its owner or one of its
    /// assessors may, and only once per milestone.
    pub fn raise_dispute(&mut self, grant: &Grant, milestone_idx: u32, caller: AccountId, reason: String, now: u64) -> (r:
        Result<Dispute, ContractError>)
        requires
            old(self).wf(),
        ensures
            final(self).wf(),
            !(grant.owner == caller || grant.reviewers@.contains(caller)) ==> r == Err::<Dispute, ContractError>(
                ContractError::Unauthorized),
            (grant.owner == caller || grant.reviewers@.contains(caller)) && old(self).dispute(grant.id, milestone_idx) is Some
                ==> r == Err::<Dispute, ContractError>(ContractError::InvalidState),
            r is Ok <==> (grant.owner == caller || grant.reviewers@.contains(caller)) && old(self).dispute(grant.id,
                milestone_idx) is None,
            r is Err ==> forall|g: u64, i: u32| #[trigger] final(self).dispute(g, i) == old(self).dispute(g, i),
            r is Ok ==> {
                let d = r->Ok_0@;
                &&& d == DisputeView {
                    grant_id: grant.id,
                    milestone_idx,
                    raised_by: caller,
                    reason: reason@,
                    status: DisputeStatus::Open,
                    arbiters: Seq::empty(),
                    votes_contributor: 0,
                    votes_funder: 0,
                    raised_at: now,
                    resolved_at: None,
                }
                &&& forall|g: u64, i: u32| #[trigger] final(self).dispute(g, i) == if g == grant.id && i == milestone_idx {
                    Some(d)
                } else {
                    old(self).dispute(g, i)
                }
            },
    {
        let is_owner = grant.owner == caller;
        let is_reviewer = crate::escrow::contains_account(&grant.reviewers, caller);
        if !(is_owner || is_reviewer) {
            return Err(ContractError::Unauthorized);
        }
        if self.get(grant.id, milestone_idx).is_some() {
            return Err(ContractError::InvalidState);
        }
        let dispute = Dispute {
            grant_id: grant.id,
            milestone_idx,
            raised_by: caller,
            reason,
            status: DisputeStatus::Open,
            arbiters: Vec::new(),
            votes_contributor: 0,
            votes_funder: 0,
            raised_at: now,
            resolved_at: None,
        };
        let stored = dispute.duplicate();
        self.set(stored);
        assert(dispute@.arbiters =~= Seq::<AccountId>::empty());
        Ok(dispute)
    }
}

/// The global admin assigns an arbiter to an open dispute, which puts it under arbitration.
pub fn assign_arbiter(dispute: &mut Dispute, admin: AccountId, arbiter: AccountId, global_admin: Option<AccountId>) -> (r:
    Result<(), ContractError>)
    ensures
        old(dispute).status != DisputeStatus::Open ==> r == Err::<(), ContractError>(ContractError::InvalidState),
        old(dispute).status == DisputeStatus::Open && global_admin != Some(admin) ==> r == Err::<(), ContractError>(
            ContractError::Unauthorized),
        old(dispute).status == DisputeStatus::Open && global_admin == Some(admin) && old(dispute).arbiters@.contains(arbiter)
            ==> r == Err::<(), ContractError>(ContractError::AlreadyVoted),
        r is Ok <==> old(dispute).status == DisputeStatus::Open && global_admin == Some(admin) && !old(
            dispute,
        ).arbiters@.contains(arbiter),
        r is Err ==> *final(dispute) == *old(dispute),
        r is Ok ==> final(dispute).arbiters@ == old(dispute).arbiters@.push(arbiter) && *final(dispute) == (Dispute {
            status: DisputeStatus::UnderReview,
            arbiters: final(dispute).arbiters,
            ..*old(dispute)
        }),
{
    if dispute.status != DisputeStatus::Open {
        return Err(ContractError::InvalidState);
    }
    if global_admin != Some(admin) {
        return Err(ContractError::Unauthorized);
    }
    if crate::escrow::contains_account(&dispute.arbiters, arbiter) {
        return Err(ContractError::AlreadyVoted);
    }
    dispute.arbiters.push(arbiter);
    dispute.status = DisputeStatus::UnderReview;
    Ok(())
}

/// An assigned arbiter votes on a dispute under arbitration (saturating counts).
pub fn arbiter_vote(dispute: &mut Dispute, arbiter: AccountId, favor_contributor: bool) -> (r: Result<(), ContractError>)
    ensures
        old(dispute).status != DisputeStatus::UnderReview ==> r == Err::<(), ContractError>(ContractError::InvalidState),
        old(dispute).status == DisputeStatus::UnderReview && !old(dispute).arbiters@.contains(arbiter) ==> r == Err::<
            (),
            ContractError,
        >(ContractError::Unauthorized),
        r is Ok <==> old(dispute).status == DisputeStatus::UnderReview && old(dispute).arbiters@.contains(arbiter),
        r is Err ==> *final(dispute) == *old(dispute),
        r is Ok ==> *final(dispute) == (if favor_contributor {
            Dispute { votes_contributor: crate::arith::clamp_u32(old(dispute).votes_contributor + 1) as u32, ..*old(dispute) }
        } else {
            Dispute { votes_funder: crate::arith::clamp_u32(old(dispute).votes_funder + 1) as u32, ..*old(dispute) }
        }),
{
    if dispute.status != DisputeStatus::UnderReview {
        return Err(ContractError::InvalidState);
    }
    if !crate::escrow::contains_account(&dispute.arbiters, arbiter) {
        return Err(ContractError::Unauthorized);
    }
    if favor_contributor {
        dispute.votes_contributor = dispute.votes_contributor.saturating_add(1);
    } else {
        dispute.votes_funder = dispute.votes_funder.saturating_add(1);
    }
    Ok(())
}

/// The raiser or the global admin cancels a dispute that is not resolved yet.
pub fn cancel_dispute(dispute: &mut Dispute, caller: AccountId, global_admin: Option<AccountId>, now: u64) -> (r: Result<
    (),
    ContractError,
>)
    ensures
        !(old(dispute).status == DisputeStatus::Open || old(dispute).status == DisputeStatus::UnderReview) ==> r == Err::<
            (),
            ContractError,
        >(ContractError::InvalidState),
        (old(dispute).status == DisputeStatus::Open || old(dispute).status == DisputeStatus::UnderReview) && old(
            dispute,
        ).raised_by != caller && global_admin != Some(caller) ==> r == Err::<(), ContractError>(ContractError::Unauthorized),
        r is Ok <==> (old(dispute).status == DisputeStatus::Open || old(dispute).status == DisputeStatus::UnderReview) && (
        old(dispute).raised_by == caller || global_admin == Some(caller)),
        r is Err ==> *final(dispute) == *old(dispute),
        r is Ok ==> *final(dispute) == (Dispute { status: DisputeStatus::Cancelled, resolved_at: Some(now), ..*old(dispute) }),
{
    if dispute.status != DisputeStatus::Open && dispute.status != DisputeStatus::UnderReview {
        return Err(ContractError::InvalidState);
    }
    if dispute.raised_by != caller && global_admin != Some(caller) {
        return Err(ContractError::Unauthorized);
    }
    dispute.status = DisputeStatus::Cancelled;
    dispute.resolved_at = Some(now);
    Ok(())
}

/// The outcome of the arbiters' votes: a side wins with a strict majority of all votes cast
/// (`total / 2 + 1`); `None` when no vote was cast or neither side reached it.
pub open spec fn spec_dispute_outcome(votes_contributor: u32, votes_funder: u32) -> Option<DisputeStatus> {
    let total = crate::arith::clamp_u32(votes_contributor + votes_funder);
    let majority = total / 2 + 1;
    if total == 0 {
        None
    } else if votes_contributor >= majority {
        Some(DisputeStatus::ResolvedForContributor)
    } else if votes_funder >= majority {
        Some(DisputeStatus::ResolvedForFunder)
    } else {
        None
    }
}

/// Running saturating total of the first `n` fund amounts.
pub open spec fn spec_funds_total(funds: Seq<GrantFund>, n: int) -> int
    decreases n,
{
    if n <= 0 { 0 } else { clamp_i128(spec_funds_total(funds, n - 1) + funds[n - 1].amount) }
}

/// The share of a disputed milestone's `amount` returned to the `i`-th funder, after
/// `distributed` has gone to the ones before: the last funder gets the remainder, the others
/// `fund * amount / total` (truncated).
pub open spec fn spec_return_share(funds: Seq<GrantFund>, amount: int, total: int, i: int, distributed: int) -> int {
    if i == funds.len() - 1 {
        amount - distributed
    } else {
        div_trunc_signed(funds[i].amount * amount, total)
    }
}

/// Total returned to the first `n` funders (only positive shares are paid; saturating).
pub open spec fn spec_returned(funds: Seq<GrantFund>, amount: int, total: int, n: int) -> int
    decreases n,
{
    if n <= 0 {
        0
    } else {
        let d = spec_returned(funds, amount, total, n - 1);
        let s = spec_return_share(funds, amount, total, n - 1, d);
        if s > 0 { clamp_i128(d + s) } else { d }
    }
}

/// The transfers to the first `n` funders.
pub open spec fn spec_return_transfers(funds: Seq<GrantFund>, amount: int, total: int, token: AccountId, n: int) -> Seq<
    Transfer,
>
    decreases n,
{
    if n <= 0 {
        Seq::empty()
    } else {
        let prev = spec_return_transfers(funds, amount, total, token, n - 1);
        let s = spec_return_share(funds, amount, total, n - 1, spec_returned(funds, amount, total, n - 1));
        if s > 0 {
            prev.push(Transfer { token, from: CONTRACT_ACCOUNT, to: funds[n - 1].funder, amount: s as i128 })
        } else {
            prev
        }
    }
}

/// Every product `fund * amount` of the funders before the last fits in `i128`.
pub open spec fn spec_products_fit(funds: Seq<GrantFund>, amount: int) -> bool {
    forall|i: int| 0 <= i < funds.len() - 1 ==> i128::MIN <= #[trigger] funds[i].amount * amount <= i128::MAX
}

/// Whether the funder branch of a resolution reaches the transfers: a milestone amount is
/// known, the escrow covers it and some funder contributed.
pub open spec fn spec_funder_path(grant: Grant, amount: Option<i128>) -> bool {
    &&& amount is Some
    &&& grant.escrow_balance >= amount->0
    &&& grant.funders@.len() > 0
    &&& spec_funds_total(grant.funders@, grant.funders@.len() as int) > 0
}

/// The last funder's remainder of a resolution for the funder fits in `i128` whenever the
/// resolution gets that far.
pub open spec fn spec_resolve_no_overflow(grant: Grant, dispute: DisputeView, amount: Option<i128>) -> bool {
    let funds = grant.funders@;
    let n = funds.len() as int;
    let m = amount->0 as int;
    let total = spec_funds_total(funds, n);
    (dispute.status == DisputeStatus::UnderReview && spec_dispute_outcome(dispute.votes_contributor, dispute.votes_funder)
        == Some(DisputeStatus::ResolvedForFunder) && spec_funder_path(grant, amount) && spec_products_fit(funds, m)) ==> i128::MIN
        <= m - spec_returned(funds, m, total, n - 1) <= i128::MAX
}

/// What resolving dispute `d` over a milestone of grant `g` (owed `amount`) at `now` does,
/// with `t0` the transfers before: the outcome `r`, and the grant `g2`, dispute `d2` and
/// transfers `t2` after. Refused resolutions change nothing.
pub open spec fn spec_resolution(
    g: Grant,
    d: DisputeView,
    amount: Option<i128>,
    now: u64,
    t0: Seq<Transfer>,
    r: Result<DisputeStatus, ContractError>,
    g2: Grant,
    d2: DisputeView,
    t2: Seq<Transfer>,
) -> bool {
    let outcome = spec_dispute_outcome(d.votes_contributor, d.votes_funder);
    let total_votes = crate::arith::clamp_u32(d.votes_contributor + d.votes_funder);
    let funds = g.funders@;
    let n = funds.len() as int;
    let m = amount->0 as int;
    let total = spec_funds_total(funds, n);
    let for_contributor = outcome == Some(DisputeStatus::ResolvedForContributor);
    let pays_owner = for_contributor && amount is Some && g.escrow_balance >= m;
    let pays_funders = !for_contributor && spec_funder_path(g, amount);
    let returned = spec_returned(funds, m, total, n);
    &&& d.status != DisputeStatus::UnderReview ==> r == Err::<DisputeStatus, ContractError>(ContractError::InvalidState)
    &&& d.status == DisputeStatus::UnderReview && total_votes == 0 ==> r == Err::<DisputeStatus, ContractError>(
        ContractError::InvalidState)
    &&& d.status == DisputeStatus::UnderReview && total_votes > 0 && outcome is None ==> r == Err::<DisputeStatus, ContractError>(
        ContractError::QuorumNotReached)
    &&& r is Ok <==> d.status == DisputeStatus::UnderReview && outcome is Some && (pays_owner ==> i128::MIN <= g.escrow_balance
        - m <= i128::MAX) && (pays_funders ==> spec_products_fit(funds, m) && i128::MIN <= g.escrow_balance - returned
        <= i128::MAX)
    &&& r is Err && d.status == DisputeStatus::UnderReview && outcome is Some ==> r == Err::<DisputeStatus, ContractError>(
        ContractError::InvalidInput)
    &&& r is Err ==> g2 == g && d2 == d && t2 == t0
    &&& r is Ok ==> {
        &&& r == Ok::<DisputeStatus, ContractError>(outcome->0)
        &&& d2 == DisputeView { status: outcome->0, resolved_at: Some(now), ..d }
        &&& pays_owner ==> g2 == Grant { escrow_balance: (g.escrow_balance - m) as i128, ..g } && t2 == t0.push(
            Transfer { token: g.token, from: CONTRACT_ACCOUNT, to: g.owner, amount: m as i128 },
        )
        &&& pays_funders ==> g2 == Grant { escrow_balance: (g.escrow_balance - returned) as i128, ..g } && t2 == t0
            + spec_return_transfers(funds, m, total, g.token, n)
        &&& !pays_owner && !pays_funders ==> g2 == g && t2 == t0
    }
}

proof fn lemma_funds_total_range(funds: Seq<GrantFund>, n: int)
    ensures
        i128::MIN <= spec_funds_total(funds, n) <= i128::MAX,
    decreases n,
{
    if n > 0 {
        lemma_funds_total_range(funds, n - 1);
    }
}

proof fn lemma_returned_range(funds: Seq<GrantFund>, amount: int, total: int, n: int)
    ensures
        i128::MIN <= spec_returned(funds, amount, total, n) <= i128::MAX,
    decreases n,
{
    if n > 0 {
        lemma_returned_range(funds, amount, total, n - 1);
    }
}

/// Resolve a dispute under arbitration by majority. For the contributor, the milestone amount
/// is paid to the grant owner from the escrow when it covers it; for the funder, it is
/// returned to the funders in proportion to their contributions (the last one takes what
/// rounding leaves). `milestone_amount` is the disputed milestone's amount, if it exists.
#[verifier::loop_isolation(false)]
pub fn resolve_dispute(
    grant: &mut Grant,
    dispute: &mut Dispute,
    milestone_amount: Option<i128>,
    now: u64,
    transfers: &mut Vec<Transfer>,
) -> (r: Result<DisputeStatus, ContractError>)
    requires
        spec_resolve_no_overflow(*old(grant), old(dispute)@, milestone_amount),
    ensures
        ({
            let d = *old(dispute);
            let g = *old(grant);
            let outcome = spec_dispute_outcome(d.votes_contributor, d.votes_funder);
            let total_votes = crate::arith::clamp_u32(d.votes_contributor + d.votes_funder);
            let funds = g.funders@;
            let n = funds.len() as int;
            let m = milestone_amount->0 as int;
            let total = spec_funds_total(funds, n);
            let for_contributor = outcome == Some(DisputeStatus::ResolvedForContributor);
            let pays_owner = for_contributor && milestone_amount is Some && g.escrow_balance >= m;
            let pays_funders = !for_contributor && spec_funder_path(g, milestone_amount);
            let returned = spec_returned(funds, m, total, n);
            &&& d.status != DisputeStatus::UnderReview ==> r == Err::<DisputeStatus, ContractError>(ContractError::InvalidState)
            &&& d.status == DisputeStatus::UnderReview && total_votes == 0 ==> r == Err::<DisputeStatus, ContractError>(
                ContractError::InvalidState)
            &&& d.status == DisputeStatus::UnderReview && total_votes > 0 && outcome is None ==> r == Err::<
                DisputeStatus,
                ContractError,
            >(ContractError::QuorumNotReached)
            &&& d.status == DisputeStatus::UnderReview && outcome is Some && pays_owner && !(i128::MIN <= g.escrow_balance - m
                <= i128::MAX) ==> r == Err::<DisputeStatus, ContractError>(ContractError::InvalidInput)
            &&& d.status == DisputeStatus::UnderReview && outcome is Some && pays_funders && !spec_products_fit(funds, m) ==> r
                == Err::<DisputeStatus, ContractError>(ContractError::InvalidInput)
            &&& d.status == DisputeStatus::UnderReview && outcome is Some && pays_funders && spec_products_fit(funds, m) && !(
            i128::MIN <= g.escrow_balance - returned <= i128::MAX) ==> r == Err::<DisputeStatus, ContractError>(
                ContractError::InvalidInput)
            &&& r is Ok <==> d.status == DisputeStatus::UnderReview && outcome is Some && (pays_owner ==> i128::MIN
                <= g.escrow_balance - m <= i128::MAX) && (pays_funders ==> spec_products_fit(funds, m) && i128::MIN
                <= g.escrow_balance - returned <= i128::MAX)
            &&& spec_resolution(g, d@, milestone_amount, now, old(transfers)@, r, *final(grant), final(dispute)@,
                final(transfers)@)
            &&& r is Err ==> *final(grant) == g && *final(dispute) == d && final(transfers)@ == old(transfers)@
            &&& r is Ok ==> {
                &&& r == Ok::<DisputeStatus, ContractError>(outcome->0)
                &&& *final(dispute) == Dispute { status: outcome->0, resolved_at: Some(now), ..d }
                &&& pays_owner ==> *final(grant) == Grant { escrow_balance: (g.escrow_balance - m) as i128, ..g }
                    && final(transfers)@ == old(transfers)@.push(Transfer { token: g.token, from: CONTRACT_ACCOUNT, to: g.owner,
                    amount: m as i128 })
                &&& pays_funders ==> *final(grant) == Grant { escrow_balance: (g.escrow_balance - returned) as i128, ..g }
                    && final(transfers)@ == old(transfers)@ + spec_return_transfers(funds, m, total, g.token, n)
                &&& !pays_owner && !pays_funders ==> *final(grant) == g && final(transfers)@ == old(transfers)@
            }
        }),
{
    if dispute.status != DisputeStatus::UnderReview {
        return Err(ContractError::InvalidState);
    }
    let total_votes = dispute.votes_contributor.saturating_add(dispute.votes_funder);
    if total_votes == 0 {
        return Err(ContractError::InvalidState);
    }
    let majority = total_votes / 2 + 1;
    let outcome = if dispute.votes_contributor >= majority {
        DisputeStatus::ResolvedForContributor
    } else if dispute.votes_funder >= majority {
        DisputeStatus::ResolvedForFunder
    } else {
        return Err(ContractError::QuorumNotReached);
    };
    if outcome == DisputeStatus::ResolvedForContributor {
        match milestone_amount {
            Some(amount) => {
                let balance = grant.escrow_balance;
                if balance >= amount {
                    let new_balance = match balance.checked_sub(amount) {
                        Some(b) => b,
                        None => return Err(ContractError::InvalidInput),
                    };
                    transfers.push(Transfer { token: grant.token, from: CONTRACT_ACCOUNT, to: grant.owner, amount });
                    grant.escrow_balance = new_balance;
                }
            },
            None => {},
        }
    } else {
        match milestone_amount {
            Some(amount) => {
                let balance = grant.escrow_balance;
                if balance >= amount && grant.funders.len() > 0 {
                    let ghost funds = grant.funders@;
                    let ghost m = amount as int;
                    let len = grant.funders.len();
                    let mut total_contributed: i128 = 0;
                    let mut k: usize = 0;
                    while k < len
                        invariant
                            len == funds.len(),
                            funds == grant.funders@,
                            k <= len,
                            total_contributed == spec_funds_total(funds, k as int),
                        decreases len - k,
                    {
                        total_contributed = crate::arith::sat_add_i128(total_contributed, grant.funders[k].amount);
                        k += 1;
                    }
                    if total_contributed > 0 {
                        // Every product must fit before anything moves.
                        let mut j: usize = 0;
                        while j + 1 < len
                            invariant
                                len == funds.len(),
                                funds == grant.funders@,
                                len > 0,
                                j + 1 <= len,
                                m == amount,
                                forall|i: int| 0 <= i < j ==> i128::MIN <= #[trigger] funds[i].amount * m <= i128::MAX,
                            decreases len - j,
                        {
                            if grant.funders[j].amount.checked_mul(amount).is_none() {
                                assert(!(i128::MIN <= funds[j as int].amount * m <= i128::MAX));
                                assert(!spec_products_fit(funds, m));
                                return Err(ContractError::InvalidInput);
                            }
                            j += 1;
                        }
                        assert(spec_products_fit(funds, m));
                        let ghost total = total_contributed as int;
                        let mut distributed: i128 = 0;
                        let mut i: usize = 0;
                        let mut pending: Vec<Transfer> = Vec::new();
                        while i < len
                            invariant
                                len == funds.len(),
                                funds == grant.funders@,
                                len > 0,
                                i <= len,
                                m == amount,
                                total == total_contributed,
                                total > 0,
                                total == spec_funds_total(funds, len as int),
                                spec_products_fit(funds, m),
                                spec_resolve_no_overflow(*old(grant), old(dispute)@, milestone_amount),
                                *grant == *old(grant),
                                *dispute == *old(dispute),
                                outcome == DisputeStatus::ResolvedForFunder,
                                spec_dispute_outcome(dispute.votes_contributor, dispute.votes_funder) == Some(
                                    DisputeStatus::ResolvedForFunder),
                                balance == grant.escrow_balance,
                                balance >= amount,
                                milestone_amount == Some(amount),
                                distributed == spec_returned(funds, m, total, i as int),
                                pending@ == spec_return_transfers(funds, m, total, grant.token, i as int),
                            decreases len - i,
                        {
                            let fund = grant.funders[i];
                            let is_last = i + 1 == len;
                            let share = if is_last {
                                assert(spec_funder_path(*old(grant), milestone_amount));
                                amount - distributed
                            } else {
                                assert(i128::MIN <= funds[i as int].amount * m <= i128::MAX);
                                let p = fund.amount * amount;
                                match p.checked_div(total_contributed) {
                                    Some(q) => q,
                                    None => 0,
                                }
                            };
                            assert(share == spec_return_share(funds, m, total, i as int, distributed as int));
                            if share > 0 {
                                pending.push(Transfer { token: grant.token, from: CONTRACT_ACCOUNT, to: fund.funder, amount: share });
                                distributed = crate::arith::sat_add_i128(distributed, share);
                            }
                            i += 1;
                        }
                        let new_balance = match balance.checked_sub(distributed) {
                            Some(b) => b,
                            None => return Err(ContractError::InvalidInput),
                        };
                        transfers.append(&mut pending);
                        grant.escrow_balance = new_balance;
                    }
                }
            },
            None => {},
        }
    }
    dispute.status = outcome;
    dispute.resolved_at = Some(now);
    Ok(outcome)
}

} // verus!
