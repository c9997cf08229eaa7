use vstd::prelude::*;

use crate::constants::MAX_BATCH_SIZE;
use crate::contract::StellarGrantsContract;
use crate::errors::ContractError;
use crate::escrow::{
    deposit, deposit_check, refund, spec_deposit_fits, spec_deposited, spec_refund_outcome, spec_refunded, EscrowAccount,
};
use crate::milestones::Milestone;
use crate::keys::Transfer;
use crate::metrics::spec_locked_update;
use crate::types::{AccountId, GrantStatus};

verus! {

impl StellarGrantsContract {
    /// Why a deposit of `amount` by `funder` into `grant_id` is refused, if it is.
    pub open spec fn spec_fund_check(&self, grant_id: u64, funder: AccountId, amount: i128) -> Result<(), ContractError> {
        let g = self.grants.views()[grant_id];
        if amount <= 0 {
            Err(ContractError::ZeroAmount)
        } else if !self.grants.views().contains_key(grant_id) {
            Err(ContractError::GrantNotFound)
        } else if g.status != GrantStatus::Active {
            Err(ContractError::InvalidState)
        } else if !self.escrow.accounts().contains_key(grant_id) {
            Err(ContractError::EscrowNotFound)
        } else if !spec_deposit_fits(&self.escrow, &self.grants, grant_id, funder, amount as int) {
            Err(ContractError::InvalidInput)
        } else {
            Ok(())
        }
    }

    /// The effect of a deposit of `amount` by `funder` into `grant_id` at `now`: the escrow
    /// and the grant record it, the tokens move in, and the token's locked total grows.
    pub open spec fn spec_funded(
        &self,
        new: &Self,
        old_transfers: Seq<Transfer>,
        new_transfers: Seq<Transfer>,
        grant_id: u64,
        funder: AccountId,
        amount: i128,
        now: u64,
    ) -> bool {
        let token = self.grants.views()[grant_id].token;
        &&& spec_deposited(
            &self.escrow,
            &new.escrow,
            &self.grants,
            &new.grants,
            old_transfers,
            new_transfers,
            grant_id,
            funder,
            amount,
            now,
        )
        &&& new.grants.counter() == self.grants.counter()
        &&& new.escrow.wf()
        &&& new.metrics.stored() == self.metrics.stored()
        &&& forall|t: AccountId| #[trigger] new.metrics.token_metric(t) == if t == token {
            spec_locked_update(self.metrics.token_metric(t), amount)
        } else {
            self.metrics.token_metric(t)
        }
        &&& new.milestones == self.milestones
        &&& new.same_accounts(self)
        &&& new.same_release_state(self)
    }

    /// A funder deposits `amount` of the grant's token into the escrow of an active grant.
    pub fn grant_fund(&mut self, grant_id: u64, funder: AccountId, amount: i128, now: u64, transfers: &mut Vec<Transfer>) -> (r:
        Result<(), ContractError>)
        requires
            old(self).escrow.wf(),
        ensures
            r == old(self).spec_fund_check(grant_id, funder, amount),
            r is Err ==> *final(self) == *old(self) && final(transfers)@ == old(transfers)@,
            r is Ok ==> old(self).spec_funded(final(self), old(transfers)@, final(transfers)@, grant_id, funder, amount, now),
    {
        if amount <= 0 {
            return Err(ContractError::ZeroAmount);
        }
        let token = match self.grants.get(grant_id) {
            Some(g) => {
                if g.status != GrantStatus::Active {
                    return Err(ContractError::InvalidState);
                }
                g.token
            },
            None => return Err(ContractError::GrantNotFound),
        };
        match deposit_check(&self.escrow, &self.grants, grant_id, funder, amount) {
            Ok(()) => {},
            Err(e) => return Err(e),
        }
        let _ = deposit(&mut self.escrow, &mut self.grants, grant_id, funder, amount, now, transfers);
        self.metrics.update_token_locked(token, amount);
        Ok(())
    }

    /// The grants, escrows and metrics of `self` and `other` read the same, and the rest is
    /// the same.
    pub open spec fn same_funds(&self, other: &Self) -> bool {
        &&& self.grants.grants() == other.grants.grants()
        &&& self.grants.counter() == other.grants.counter()
        &&& self.escrow.accounts() == other.escrow.accounts()
        &&& forall|g: u64, f: AccountId| #[trigger] self.escrow.ledger(g, f) == other.escrow.ledger(g, f)
        &&& forall|g: u64| #[trigger] self.escrow.funder_list(g) == other.escrow.funder_list(g)
        &&& self.metrics.stored() == other.metrics.stored()
        &&& forall|t: AccountId| #[trigger] self.metrics.token_metric(t) == other.metrics.token_metric(t)
        &&& self.milestones == other.milestones
        &&& self.same_accounts(other)
        &&& self.same_release_state(other)
    }
}

/// Step `k` of a funding batch succeeds and takes state `k` to state `k + 1`.
pub open spec fn spec_fund_step(
    states: Seq<StellarGrantsContract>,
    ts: Seq<Seq<Transfer>>,
    funder: AccountId,
    items: Seq<(u64, i128)>,
    now: u64,
    k: int,
) -> bool {
    &&& states[k].spec_fund_check(items[k].0, funder, items[k].1) is Ok
    &&& states[k].spec_funded(&states[k + 1], ts[k], ts[k + 1], items[k].0, funder, items[k].1, now)
}

/// The first `n` items of a funding batch succeed, in order, through `states` and `ts`.
pub open spec fn spec_fund_chain(
    states: Seq<StellarGrantsContract>,
    ts: Seq<Seq<Transfer>>,
    funder: AccountId,
    items: Seq<(u64, i128)>,
    now: u64,
    n: int,
) -> bool {
    &&& states.len() == n + 1
    &&& ts.len() == n + 1
    &&& forall|k: int| 0 <= k < n ==> #[trigger] spec_fund_step(states, ts, funder, items, now, k)
}

impl StellarGrantsContract {
    /// Fund several grants in one request: all the deposits are made, in order, or none is.
    pub fn fund_batch(
        &mut self,
        funder: AccountId,
        items: &Vec<(u64, i128)>,
        now: u64,
        transfers: &mut Vec<Transfer>,
    ) -> (r: Result<(), ContractError>)
        requires
            old(self).escrow.wf(),
        ensures
            items.len() == 0 ==> r == Err::<(), ContractError>(ContractError::BatchEmpty),
            items.len() > MAX_BATCH_SIZE ==> r == Err::<(), ContractError>(ContractError::BatchTooLarge),
            r is Err ==> final(self).same_funds(old(self)) && final(transfers)@ == old(transfers)@,
            0 < items.len() <= MAX_BATCH_SIZE && r is Ok ==> exists|states: Seq<StellarGrantsContract>, ts: Seq<Seq<Transfer>>|
                {
                    &&& spec_fund_chain(states, ts, funder, items@, now, items.len() as int)
                    &&& states[0] == *old(self)
                    &&& ts[0] == old(transfers)@
                    &&& states[items.len() as int] == *final(self)
                    &&& ts[items.len() as int] == final(transfers)@
                },
            0 < items.len() <= MAX_BATCH_SIZE && r is Err ==> exists|
                states: Seq<StellarGrantsContract>,
                ts: Seq<Seq<Transfer>>,
                k: int,
            |
                {
                    &&& 0 <= k < items.len()
                    &&& spec_fund_chain(states, ts, funder, items@, now, k)
                    &&& states[0] == *old(self)
                    &&& ts[0] == old(transfers)@
                    &&& states[k].spec_fund_check(items@[k].0, funder, items@[k].1) is Err
                    &&& r == Err::<(), ContractError>(states[k].spec_fund_check(items@[k].0, funder, items@[k].1)->Err_0)
                },
    {
        if items.len() == 0 {
            return Err(ContractError::BatchEmpty);
        }
        if items.len() > MAX_BATCH_SIZE as usize {
            return Err(ContractError::BatchTooLarge);
        }
        let saved_grants = self.grants.duplicate();
        let saved_escrow = self.escrow.duplicate();
        let saved_metrics = self.metrics.duplicate();
        let saved_len = transfers.len();
        let ghost mut states: Seq<StellarGrantsContract> = seq![*self];
        let ghost mut ts: Seq<Seq<Transfer>> = seq![transfers@];
        let mut i: usize = 0;
        while i < items.len()
            invariant
                i <= items.len(),
                0 < items.len() <= MAX_BATCH_SIZE,
                self.escrow.wf(),
                spec_fund_chain(states, ts, funder, items@, now, i as int),
                states[0] == *old(self),
                ts[0] == old(transfers)@,
                states[i as int] == *self,
                ts[i as int] == transfers@,
                saved_grants.grants() == old(self).grants.grants(),
                saved_grants.counter() == old(self).grants.counter(),
                saved_escrow.accounts() == old(self).escrow.accounts(),
                forall|g: u64, f: AccountId| #[trigger] saved_escrow.ledger(g, f) == old(self).escrow.ledger(g, f),
                forall|g: u64| #[trigger] saved_escrow.funder_list(g) == old(self).escrow.funder_list(g),
                saved_metrics.stored() == old(self).metrics.stored(),
                forall|t: AccountId| #[trigger] saved_metrics.token_metric(t) == old(self).metrics.token_metric(t),
                saved_len == old(transfers)@.len(),
                transfers@.len() >= saved_len,
                transfers@.subrange(0, saved_len as int) == old(transfers)@,
                self.milestones == old(self).milestones,
                self.same_accounts(old(self)),
                self.same_release_state(old(self)),
            decreases items.len() - i,
        {
            let (grant_id, amount) = items[i];
            let ghost before = *self;
            let ghost t_before = transfers@;
            match self.grant_fund(grant_id, funder, amount, now, transfers) {
                Ok(()) => {
                    proof {
                        let ns = states.push(*self);
                        let nts = ts.push(transfers@);
                        assert(spec_fund_step(ns, nts, funder, items@, now, i as int));
                        assert forall|k: int| 0 <= k < i + 1 implies #[trigger] spec_fund_step(ns, nts, funder, items@, now, k) by {
                            if k < i {
                                assert(spec_fund_step(states, ts, funder, items@, now, k));
                                assert(ns[k] == states[k] && ns[k + 1] == states[k + 1]);
                                assert(nts[k] == ts[k] && nts[k + 1] == ts[k + 1]);
                            }
                        }
                        assert(t_before.len() <= transfers@.len());
                        assert(transfers@.subrange(0, saved_len as int) =~= t_before.subrange(0, saved_len as int));
                        states = ns;
                        ts = nts;
                    }
                },
                Err(e) => {
                    self.grants = saved_grants;
                    self.escrow = saved_escrow;
                    self.metrics = saved_metrics;
                    transfers.truncate(saved_len);
                    assert(transfers@ =~= old(transfers)@);
                    return Err(e);
                },
            }
            i += 1;
        }
        Ok(())
    }
}

impl StellarGrantsContract {
    /// Milestone `milestone_idx` of a grant.
    pub fn get_milestone(&self, grant_id: u64, milestone_idx: u32) -> (r: Result<&Milestone, ContractError>)
        ensures
            !self.grants.views().contains_key(grant_id) ==> r == Err::<&Milestone, ContractError>(ContractError::GrantNotFound),
            self.grants.views().contains_key(grant_id) && milestone_idx >= self.grants.views()[grant_id].total_milestones
                ==> r == Err::<&Milestone, ContractError>(ContractError::MilestoneIndexOutOfBounds),
            self.grants.views().contains_key(grant_id) && milestone_idx < self.grants.views()[grant_id].total_milestones ==> match r {
                Ok(m) => self.milestones.milestone(grant_id, milestone_idx) == Some(*m),
                Err(e) => e == ContractError::MilestoneNotFound && self.milestones.milestone(grant_id, milestone_idx) is None,
            },
    {
        let total = match self.grants.get(grant_id) {
            Some(g) => g.total_milestones,
            None => return Err(ContractError::GrantNotFound),
        };
        if milestone_idx >= total {
            return Err(ContractError::MilestoneIndexOutOfBounds);
        }
        match self.milestones.get(grant_id, milestone_idx) {
            Some(m) => Ok(m),
            None => Err(ContractError::MilestoneNotFound),
        }
    }

    /// A funder takes back what remains of its contribution once the grant is no longer active.
    pub fn refund_funder(&mut self, funder: AccountId, grant_id: u64, transfers: &mut Vec<Transfer>) -> (r: Result<
        i128,
        ContractError,
    >)
        ensures
            !old(self).grants.views().contains_key(grant_id) ==> r == Err::<i128, ContractError>(ContractError::GrantNotFound),
            old(self).grants.views().contains_key(grant_id) && old(self).grants.views()[grant_id].status == GrantStatus::Active
                ==> r == Err::<i128, ContractError>(ContractError::InvalidState),
            old(self).grants.views().contains_key(grant_id) && old(self).grants.views()[grant_id].status != GrantStatus::Active
                ==> r == spec_refund_outcome(&old(self).escrow, grant_id, funder),
            r is Err ==> final(self).same_funds(old(self)) && final(transfers)@ == old(transfers)@,
            r is Ok ==> spec_refunded(
                &old(self).escrow,
                &final(self).escrow,
                &old(self).grants,
                &final(self).grants,
                old(transfers)@,
                final(transfers)@,
                grant_id,
                funder,
            ) && final(self).grants.counter() == old(self).grants.counter() && final(self).metrics == old(self).metrics
                && final(self).milestones == old(self).milestones && final(self).same_accounts(old(self))
                && final(self).same_release_state(old(self)),
    {
        match self.grants.get(grant_id) {
            Some(g) => {
                if g.status == GrantStatus::Active {
                    return Err(ContractError::InvalidState);
                }
            },
            None => return Err(ContractError::GrantNotFound),
        }
        refund(&mut self.escrow, &mut self.grants, grant_id, funder, transfers)
    }

    /// The global admin locks or unlocks the escrow of a grant.
    pub fn set_escrow_lock(&mut self, admin: AccountId, grant_id: u64, locked: bool) -> (r: Result<(), ContractError>)
        ensures
            old(self).global_admin != Some(admin) ==> r == Err::<(), ContractError>(ContractError::Unauthorized),
            old(self).global_admin == Some(admin) && !old(self).escrow.accounts().contains_key(grant_id) ==> r == Err::<
                (),
                ContractError,
            >(ContractError::EscrowNotFound),
            r is Ok <==> old(self).global_admin == Some(admin) && old(self).escrow.accounts().contains_key(grant_id),
            r is Err ==> final(self).escrow.accounts() == old(self).escrow.accounts(),
            r is Ok ==> final(self).escrow.accounts() == old(self).escrow.accounts().insert(
                grant_id,
                EscrowAccount { locked, ..old(self).escrow.accounts()[grant_id] },
            ),
            forall|g: u64, f: AccountId| #[trigger] final(self).escrow.ledger(g, f) == old(self).escrow.ledger(g, f),
            forall|g: u64| #[trigger] final(self).escrow.funder_list(g) == old(self).escrow.funder_list(g),
            final(self).grants == old(self).grants,
            final(self).metrics == old(self).metrics,
            final(self).same_accounts(old(self)),
            final(self).same_release_state(old(self)),
    {
        match self.global_admin {
            Some(a) => {
                if a != admin {
                    return Err(ContractError::Unauthorized);
                }
            },
            None => return Err(ContractError::Unauthorized),
        }
        self.escrow.set_locked(grant_id, locked)
    }

    /// The global admin locks the escrow of a grant (a locked escrow releases nothing).
    pub fn lock_escrow(&mut self, admin: AccountId, grant_id: u64) -> (r: Result<(), ContractError>)
        ensures
            old(self).global_admin != Some(admin) ==> r == Err::<(), ContractError>(ContractError::Unauthorized),
            old(self).global_admin == Some(admin) && !old(self).escrow.accounts().contains_key(grant_id) ==> r == Err::<
                (),
                ContractError,
            >(ContractError::EscrowNotFound),
            r is Ok <==> old(self).global_admin == Some(admin) && old(self).escrow.accounts().contains_key(grant_id),
            r is Err ==> final(self).escrow.accounts() == old(self).escrow.accounts(),
            r is Ok ==> final(self).escrow.accounts() == old(self).escrow.accounts().insert(
                grant_id,
                EscrowAccount { locked: true, ..old(self).escrow.accounts()[grant_id] },
            ),
            final(self).grants == old(self).grants,
    {
        self.set_escrow_lock(admin, grant_id, true)
    }

    /// The global admin unlocks the escrow of a grant.
    pub fn unlock_escrow(&mut self, admin: AccountId, grant_id: u64) -> (r: Result<(), ContractError>)
        ensures
            old(self).global_admin != Some(admin) ==> r == Err::<(), ContractError>(ContractError::Unauthorized),
            old(self).global_admin == Some(admin) && !old(self).escrow.accounts().contains_key(grant_id) ==> r == Err::<
                (),
                ContractError,
            >(ContractError::EscrowNotFound),
            r is Ok <==> old(self).global_admin == Some(admin) && old(self).escrow.accounts().contains_key(grant_id),
            r is Err ==> final(self).escrow.accounts() == old(self).escrow.accounts(),
            r is Ok ==> final(self).escrow.accounts() == old(self).escrow.accounts().insert(
                grant_id,
                EscrowAccount { locked: false, ..old(self).escrow.accounts()[grant_id] },
            ),
            final(self).grants == old(self).grants,
    {
        self.set_escrow_lock(admin, grant_id, false)
    }
}

} // verus!
