use vstd::prelude::*;

use crate::compliance::spec_compliance_check;
use crate::constants::CONTRACT_ACCOUNT;
use crate::contract::StellarGrantsContract;
use crate::errors::ContractError;
use crate::events::GrantCompleted;
use crate::escrow::{
    lemma_same_ledgers_refund, refund_all, release, spec_nets, spec_refund_all_fits, spec_refunded_all_from, EscrowAccount,
};
use crate::grants::GrantView;
use crate::keys::Transfer;
use crate::metrics::{spec_increment, spec_locked_update, spec_locked_update_fits, MetricField};
use crate::milestones::{Milestone, MilestoneBook};
use crate::keys::{lemma_pair_key_injective, pair_key, spec_pair_key};
use crate::types::{AccountId, EscrowLifecycleState, EscrowMode, EscrowState, GrantStatus, MilestoneState};

verus! {

broadcast use vstd::std_specs::hash::group_hash_axioms;

/// Whether a milestone is present and approved.
pub open spec fn spec_is_approved(m: Option<Milestone>) -> bool {
    m matches Some(x) && x.state == MilestoneState::Approved
}

/// Whether the first `n` milestones of `grant_id` are all approved.
pub open spec fn spec_all_approved(ms: &MilestoneBook, grant_id: u64, n: int) -> bool {
    forall|i: int| 0 <= i < n ==> spec_is_approved(#[trigger] ms.milestone(grant_id, i as u32))
}

/// Sum of the amounts of the first `k` milestones of `grant_id`.
pub open spec fn spec_approved_sum(ms: &MilestoneBook, grant_id: u64, k: int) -> int
    decreases k,
{
    if k <= 0 {
        0
    } else {
        spec_approved_sum(ms, grant_id, k - 1) + ms.milestone(grant_id, (k - 1) as u32)->0.amount
    }
}

/// Every running total of the amounts of an approved prefix of the first `n` milestones
/// stays within `i128`.
pub open spec fn spec_paid_fits(ms: &MilestoneBook, grant_id: u64, n: int) -> bool {
    forall|k: int|
        #![trigger spec_approved_sum(ms, grant_id, k)]
        0 <= k <= n && spec_all_approved(ms, grant_id, k) ==> i128::MIN <= spec_approved_sum(ms, grant_id, k) <= i128::MAX
}

impl StellarGrantsContract {
    /// The total owed for the first `total_milestones` milestones of a grant, when all of them
    /// are approved.
    pub fn compute_total_paid_if_quorum_ready(&self, grant_id: u64, total_milestones: u32) -> (r: Result<
        i128,
        ContractError,
    >)
        requires
            spec_paid_fits(&self.milestones, grant_id, total_milestones as int),
        ensures
            r == if spec_all_approved(&self.milestones, grant_id, total_milestones as int) {
                Ok::<i128, ContractError>(spec_approved_sum(&self.milestones, grant_id, total_milestones as int) as i128)
            } else {
                Err::<i128, ContractError>(ContractError::NotAllMilestonesApproved)
            },
    {
        let mut total_paid: i128 = 0;
        let mut idx: u32 = 0;
        while idx < total_milestones
            invariant
                idx <= total_milestones,
                spec_paid_fits(&self.milestones, grant_id, total_milestones as int),
                spec_all_approved(&self.milestones, grant_id, idx as int),
                total_paid == spec_approved_sum(&self.milestones, grant_id, idx as int),
            decreases total_milestones - idx,
        {
            let amount = match self.milestones.get(grant_id, idx) {
                Some(m) => {
                    if m.state != MilestoneState::Approved {
                        assert(!spec_is_approved(self.milestones.milestone(grant_id, idx as int as u32)));
                        return Err(ContractError::NotAllMilestonesApproved);
                    }
                    m.amount
                },
                None => {
                    assert(!spec_is_approved(self.milestones.milestone(grant_id, idx as int as u32)));
                    return Err(ContractError::NotAllMilestonesApproved);
                },
            };
            assert(spec_all_approved(&self.milestones, grant_id, idx as int + 1));
            assert(i128::MIN <= spec_approved_sum(&self.milestones, grant_id, idx as int + 1) <= i128::MAX);
            total_paid = total_paid + amount;
            idx += 1;
        }
        Ok(total_paid)
    }

    /// Why releasing the funds of `grant_id` at `now` is refused, or what the approved
    /// milestones add up to.
    pub open spec fn spec_finalize_check(&self, grant_id: u64, now: u64) -> Result<i128, ContractError> {
        let g = self.grants.views()[grant_id];
        let acc = self.escrow.accounts()[grant_id];
        let open_acc = self.escrow.accounts().contains_key(grant_id);
        let tp = spec_approved_sum(&self.milestones, grant_id, g.total_milestones as int);
        if !self.grants.views().contains_key(grant_id) {
            Err(ContractError::GrantNotFound)
        } else if g.status != GrantStatus::Active {
            Err(ContractError::InvalidState)
        } else if g.require_compliance is Some && spec_compliance_check(
            self.compliance.attestation(g.owner),
            g.require_compliance->0,
            now,
        ) is Err {
            Err(spec_compliance_check(self.compliance.attestation(g.owner), g.require_compliance->0, now)->Err_0)
        } else if !spec_all_approved(&self.milestones, grant_id, g.total_milestones as int) {
            Err(ContractError::NotAllMilestonesApproved)
        } else if g.escrow_balance < tp {
            Err(ContractError::InvalidInput)
        } else if tp > 0 && !open_acc {
            Err(ContractError::EscrowNotFound)
        } else if tp > 0 && acc.locked {
            Err(ContractError::EscrowLocked)
        } else if tp > 0 && (acc.balance < tp || acc.total_released + tp > i128::MAX) {
            Err(ContractError::InvalidInput)
        } else if g.escrow_balance - tp > 0 && !open_acc {
            Err(ContractError::EscrowNotFound)
        } else if !self.escrow_states@.contains_key(grant_id) {
            Err(ContractError::InvalidState)
        } else {
            Ok(tp as i128)
        }
    }

    /// Whether releasing `grant_id` at `now` gets past the grant, compliance and approval checks.
    pub open spec fn spec_finalize_reaches_payout(&self, grant_id: u64, now: u64) -> bool {
        let g = self.grants.views()[grant_id];
        &&& self.grants.views().contains_key(grant_id)
        &&& g.status == GrantStatus::Active
        &&& g.require_compliance is Some ==> spec_compliance_check(
            self.compliance.attestation(g.owner),
            g.require_compliance->0,
            now,
        ) is Ok
        &&& spec_all_approved(&self.milestones, grant_id, g.total_milestones as int)
    }

    /// The escrow account of `grant_id` after the owner is paid `tp`.
    pub open spec fn spec_account_after_payout(&self, grant_id: u64, tp: i128) -> EscrowAccount {
        let acc = self.escrow.accounts()[grant_id];
        if tp > 0 {
            EscrowAccount {
                balance: (acc.balance - tp) as i128,
                total_released: (acc.total_released + tp) as i128,
                ..acc
            }
        } else {
            acc
        }
    }

    /// The arithmetic of releasing `grant_id` stays within `i128` wherever it is reached.
    pub open spec fn spec_finalize_fits(&self, grant_id: u64, now: u64) -> bool {
        let g = self.grants.views()[grant_id];
        let check = self.spec_finalize_check(grant_id, now);
        let tp = check->Ok_0;
        &&& self.grants.views().contains_key(grant_id) && g.status == GrantStatus::Active ==> spec_paid_fits(
            &self.milestones,
            grant_id,
            g.total_milestones as int,
        )
        &&& self.spec_finalize_reaches_payout(grant_id, now) ==> g.escrow_balance - spec_approved_sum(
            &self.milestones,
            grant_id,
            g.total_milestones as int,
        ) <= i128::MAX
        &&& check is Ok && g.escrow_balance - tp > 0 ==> spec_refund_all_fits(
            spec_nets(&self.escrow, grant_id),
            self.spec_account_after_payout(grant_id, tp).balance as int,
        )
        &&& check is Ok ==> tp != i128::MIN && spec_locked_update_fits(self.metrics.token_metric(g.token), -tp as i128)
    }

    /// The effect of releasing `grant_id` at `now`, with `tp` owed for its milestones, on
    /// everything but the release state: the owner is paid `tp`, what is left in the escrow
    /// goes back to the funders, the grant is completed with nothing in escrow, and the
    /// metrics record it.
    pub open spec fn spec_finalized(
        &self,
        new: &Self,
        old_transfers: Seq<Transfer>,
        new_transfers: Seq<Transfer>,
        grant_id: u64,
        now: u64,
        tp: i128,
    ) -> bool {
        let g = self.grants.views()[grant_id];
        let acc = self.escrow.accounts()[grant_id];
        let acc1 = self.spec_account_after_payout(grant_id, tp);
        let accounts1 = if tp > 0 {
            self.escrow.accounts().insert(grant_id, acc1)
        } else {
            self.escrow.accounts()
        };
        let t1 = if tp > 0 {
            old_transfers.push(Transfer { token: acc.token, from: CONTRACT_ACCOUNT, to: g.owner, amount: tp })
        } else {
            old_transfers
        };
        &&& g.escrow_balance - tp > 0 ==> spec_refunded_all_from(
            &self.escrow,
            accounts1,
            acc1,
            &new.escrow,
            t1,
            new_transfers,
            grant_id,
        )
        &&& g.escrow_balance - tp <= 0 ==> new.escrow.accounts() == accounts1 && new_transfers == t1 && forall|
            gg: u64,
            f: AccountId,
        | #[trigger] new.escrow.ledger(gg, f) == self.escrow.ledger(gg, f)
        &&& forall|gg: u64| #[trigger] new.escrow.funder_list(gg) == self.escrow.funder_list(gg)
        &&& new.escrow.wf()
        &&& new.grants.views() == self.grants.views().insert(
            grant_id,
            GrantView {
                status: GrantStatus::Completed,
                escrow_balance: 0,
                milestones_paid_out: g.total_milestones,
                timestamp: now,
                ..g
            },
        )
        &&& new.grants.counter() == self.grants.counter()
        &&& new.metrics.stored() == Some(spec_increment(self.metrics.current(now), MetricField::GrantsCompleted, 1, now))
        &&& forall|t: AccountId| #[trigger] new.metrics.token_metric(t) == if t == g.token {
            spec_locked_update(self.metrics.token_metric(t), -tp as i128)
        } else {
            self.metrics.token_metric(t)
        }
        &&& new.milestones == self.milestones
        &&& new.same_accounts(self)
        &&& new.multisig_signers == self.multisig_signers
    }

    /// Check, without changing anything, whether releasing `grant_id` at `now` would go
    /// through; returns what the approved milestones add up to.
    pub fn finalize_check(&self, grant_id: u64, now: u64) -> (r: Result<i128, ContractError>)
        requires
            self.spec_finalize_fits(grant_id, now),
        ensures
            r == self.spec_finalize_check(grant_id, now),
    {
        let g = match self.grants.get(grant_id) {
            Some(g) => g,
            None => return Err(ContractError::GrantNotFound),
        };
        if g.status != GrantStatus::Active {
            return Err(ContractError::InvalidState);
        }
        match g.require_compliance {
            Some(level) => {
                match self.compliance.require_compliant(g.owner, level, now) {
                    Ok(()) => {},
                    Err(e) => return Err(e),
                }
            },
            None => {},
        }
        let total_paid = match self.compute_total_paid_if_quorum_ready(grant_id, g.total_milestones) {
            Ok(t) => t,
            Err(e) => return Err(e),
        };
        if g.escrow_balance < total_paid {
            return Err(ContractError::InvalidInput);
        }
        let remaining = g.escrow_balance - total_paid;
        let acc = self.escrow.get_account(grant_id);
        if total_paid > 0 {
            match acc {
                Ok(a) => {
                    if a.locked {
                        return Err(ContractError::EscrowLocked);
                    }
                    if a.balance < total_paid || a.total_released.checked_add(total_paid).is_none() {
                        return Err(ContractError::InvalidInput);
                    }
                },
                Err(_) => return Err(ContractError::EscrowNotFound),
            }
        }
        if remaining > 0 && acc.is_err() {
            return Err(ContractError::EscrowNotFound);
        }
        if !self.escrow_states.contains_key(&grant_id) {
            return Err(ContractError::InvalidState);
        }
        Ok(total_paid)
    }

    /// The release state of `grant_id` once its funds are released.
    pub open spec fn spec_released_state(&self, grant_id: u64) -> EscrowState {
        EscrowState { lifecycle: EscrowLifecycleState::Released, quorum_ready: true, ..self.escrow_states@[grant_id] }
    }

    /// The record of the completion of `grant_id` at `now`, with `tp` paid to its owner and
    /// the rest of its escrow returned to the funders.
    pub open spec fn spec_completed_event(&self, grant_id: u64, now: u64, tp: i128) -> GrantCompleted {
        GrantCompleted {
            grant_id,
            total_paid: tp,
            remaining_balance: (self.grants.views()[grant_id].escrow_balance - tp) as i128,
            timestamp: now,
        }
    }

    /// Release the funds of a grant whose milestones are all approved: pay the owner what
    /// the milestones add up to, return the rest to the funders, and complete the grant.
    pub fn finalize_grant_release(&mut self, grant_id: u64, now: u64, transfers: &mut Vec<Transfer>) -> (r: Result<
        GrantCompleted,
        ContractError,
    >)
        requires
            old(self).escrow.wf(),
            old(self).spec_finalize_fits(grant_id, now),
        ensures
            r is Ok <==> old(self).spec_finalize_check(grant_id, now) is Ok,
            r is Err ==> r == Err::<GrantCompleted, ContractError>(old(self).spec_finalize_check(grant_id, now)->Err_0)
                && *final(self) == *old(self) && final(transfers)@ == old(transfers)@,
            r is Ok ==> r->Ok_0 == old(self).spec_completed_event(
                grant_id,
                now,
                old(self).spec_finalize_check(grant_id, now)->Ok_0,
            ),
            r is Ok ==> old(self).spec_finalized(
                final(self),
                old(transfers)@,
                final(transfers)@,
                grant_id,
                now,
                old(self).spec_finalize_check(grant_id, now)->Ok_0,
            ),
            r is Ok ==> final(self).escrow_states@ == old(self).escrow_states@.insert(
                grant_id,
                old(self).spec_released_state(grant_id),
            ),
            r is Ok ==> final(self).release_approvals == old(self).release_approvals,
    {
        let tp = match self.finalize_check(grant_id, now) {
            Ok(t) => t,
            Err(e) => return Err(e),
        };
        let (owner, balance, token) = match self.grants.get(grant_id) {
            Some(g) => (g.owner, g.escrow_balance, g.token),
            None => return Err(ContractError::GrantNotFound),
        };
        let remaining = balance - tp;
        let ghost e0 = self.escrow;
        let ghost acc1 = old(self).spec_account_after_payout(grant_id, tp);
        if tp > 0 {
            let _ = release(&mut self.escrow, &mut self.grants, grant_id, owner, tp, transfers);
        }
        let ghost e1 = self.escrow;
        let ghost t1 = transfers@;
        proof {
            lemma_same_ledgers_refund(&e1, &e0, e1.accounts(), acc1, &e1, t1, t1, grant_id);
            assert(e1.accounts()[grant_id] == acc1);
        }
        if remaining > 0 {
            let _ = refund_all(&mut self.escrow, &mut self.grants, grant_id, transfers);
            proof {
                lemma_same_ledgers_refund(&e1, &e0, e1.accounts(), acc1, &self.escrow, t1, transfers@, grant_id);
            }
        }
        let mut grant = self.grants.take(grant_id).unwrap();
        grant.status = GrantStatus::Completed;
        grant.escrow_balance = 0;
        grant.milestones_paid_out = grant.total_milestones;
        grant.timestamp = now;
        self.grants.set(grant_id, grant);
        let st = *self.escrow_states.get(&grant_id).unwrap();
        self.escrow_states.insert(
            grant_id,
            EscrowState { lifecycle: EscrowLifecycleState::Released, quorum_ready: true, ..st },
        );
        self.metrics.increment(MetricField::GrantsCompleted, 1, now);
        self.metrics.update_token_locked(token, -tp);
        proof {
            let g = old(self).grants.views()[grant_id];
            assert(self.grants.views() =~= old(self).grants.views().insert(
                grant_id,
                GrantView {
                    status: GrantStatus::Completed,
                    escrow_balance: 0,
                    milestones_paid_out: g.total_milestones,
                    timestamp: now,
                    ..g
                },
            ));
        }
        Ok(GrantCompleted { grant_id, total_paid: tp, remaining_balance: remaining, timestamp: now })
    }

    /// Why completing `grant_id` is refused before any release is attempted, if it is.
    pub open spec fn spec_complete_check(&self, grant_id: u64) -> Result<(), ContractError> {
        let g = self.grants.views()[grant_id];
        if !self.grants.views().contains_key(grant_id) {
            Err(ContractError::GrantNotFound)
        } else if g.status != GrantStatus::Active {
            Err(ContractError::InvalidState)
        } else if !self.escrow_states@.contains_key(grant_id) {
            Err(ContractError::InvalidState)
        } else if self.escrow_states@[grant_id].lifecycle == EscrowLifecycleState::Released {
            Err(ContractError::GrantAlreadyReleased)
        } else if !spec_all_approved(&self.milestones, grant_id, g.total_milestones as int) {
            Err(ContractError::NotAllMilestonesApproved)
        } else {
            Ok(())
        }
    }

    /// Complete a grant whose milestones are all approved: a standard grant is released at
    /// once; a high-security one waits for its signers.
    pub fn grant_complete(&mut self, grant_id: u64, now: u64, transfers: &mut Vec<Transfer>) -> (r: Result<
        Option<GrantCompleted>,
        ContractError,
    >)
        requires
            old(self).escrow.wf(),
            old(self).spec_finalize_fits(grant_id, now),
        ensures
            ({
                let check = old(self).spec_complete_check(grant_id);
                let st = old(self).escrow_states@[grant_id];
                let fin = old(self).spec_finalize_check(grant_id, now);
                &&& check is Err ==> r == Err::<Option<GrantCompleted>, ContractError>(check->Err_0)
                &&& check is Ok && st.mode == EscrowMode::Standard ==> (r is Ok <==> fin is Ok)
                &&& check is Ok && st.mode == EscrowMode::Standard && fin is Err ==> r == Err::<
                    Option<GrantCompleted>,
                    ContractError,
                >(fin->Err_0)
                &&& check is Ok && st.mode == EscrowMode::Standard && fin is Ok ==> r == Ok::<
                    Option<GrantCompleted>,
                    ContractError,
                >(Some(old(self).spec_completed_event(grant_id, now, fin->Ok_0)))
                &&& check is Ok && st.mode != EscrowMode::Standard ==> r == Ok::<Option<GrantCompleted>, ContractError>(
                    None)
                &&& r is Err ==> *final(self) == *old(self) && final(transfers)@ == old(transfers)@
                &&& r is Ok && st.mode == EscrowMode::Standard ==> {
                    &&& old(self).spec_finalized(final(self), old(transfers)@, final(transfers)@, grant_id, now, fin->Ok_0)
                    &&& final(self).escrow_states@ == old(self).escrow_states@.insert(
                        grant_id,
                        old(self).spec_released_state(grant_id),
                    )
                    &&& final(self).release_approvals == old(self).release_approvals
                }
                &&& r is Ok && st.mode != EscrowMode::Standard ==> {
                    &&& final(self).escrow_states@ == old(self).escrow_states@.insert(
                        grant_id,
                        EscrowState { lifecycle: EscrowLifecycleState::AwaitingMultisig, quorum_ready: true, ..st },
                    )
                    &&& final(transfers)@ == old(transfers)@
                    &&& final(self).grants == old(self).grants
                    &&& final(self).escrow == old(self).escrow
                    &&& final(self).metrics == old(self).metrics
                    &&& final(self).milestones == old(self).milestones
                    &&& final(self).same_accounts(old(self))
                    &&& final(self).multisig_signers == old(self).multisig_signers
                    &&& final(self).release_approvals == old(self).release_approvals
                }
            }),
    {
        let total_milestones = match self.grants.get(grant_id) {
            Some(g) => {
                if g.status != GrantStatus::Active {
                    return Err(ContractError::InvalidState);
                }
                g.total_milestones
            },
            None => return Err(ContractError::GrantNotFound),
        };
        let st = match self.escrow_states.get(&grant_id) {
            Some(s) => *s,
            None => return Err(ContractError::InvalidState),
        };
        if st.lifecycle == EscrowLifecycleState::Released {
            return Err(ContractError::GrantAlreadyReleased);
        }
        match self.compute_total_paid_if_quorum_ready(grant_id, total_milestones) {
            Ok(_) => {},
            Err(e) => return Err(e),
        }
        if st.mode == EscrowMode::Standard {
            return match self.finalize_grant_release(grant_id, now, transfers) {
                Ok(event) => Ok(Some(event)),
                Err(e) => Err(e),
            };
        }
        self.escrow_states.insert(
            grant_id,
            EscrowState { lifecycle: EscrowLifecycleState::AwaitingMultisig, quorum_ready: true, ..st },
        );
        Ok(None)
    }

    /// Why `signer`'s approval of the release of `grant_id` is refused, if it is.
    pub open spec fn spec_sign_check(&self, grant_id: u64, signer: AccountId) -> Result<(), ContractError> {
        let g = self.grants.views()[grant_id];
        let st = self.escrow_states@[grant_id];
        if !self.grants.views().contains_key(grant_id) {
            Err(ContractError::GrantNotFound)
        } else if g.status != GrantStatus::Active {
            Err(ContractError::InvalidState)
        } else if !self.escrow_states@.contains_key(grant_id) {
            Err(ContractError::InvalidState)
        } else if st.mode != EscrowMode::HighSecurity {
            Err(ContractError::InvalidState)
        } else if st.lifecycle == EscrowLifecycleState::Released {
            Err(ContractError::GrantAlreadyReleased)
        } else if !self.signers(grant_id).contains(signer) {
            Err(ContractError::NotMultisigSigner)
        } else if self.approved_release(grant_id, signer) {
            Err(ContractError::AlreadySignedRelease)
        } else {
            Ok(())
        }
    }

    /// A multisig signer approves the release of a high-security grant. Once every signer has
    /// approved and the milestones are complete, the funds are released.
    pub fn sign_release(&mut self, grant_id: u64, signer: AccountId, now: u64, transfers: &mut Vec<Transfer>) -> (r: Result<
        Option<GrantCompleted>,
        ContractError,
    >)
        requires
            old(self).escrow.wf(),
            old(self).spec_finalize_fits(grant_id, now),
            old(self).spec_sign_check(grant_id, signer) is Ok ==> old(self).escrow_states@[grant_id].approvals_count
                < u32::MAX,
        ensures
            ({
                let check = old(self).spec_sign_check(grant_id, signer);
                let st = old(self).escrow_states@[grant_id];
                let count = (st.approvals_count + 1) as u32;
                let complete = count >= old(self).signers(grant_id).len();
                let fin = old(self).spec_finalize_check(grant_id, now);
                &&& check is Err ==> r == Err::<Option<GrantCompleted>, ContractError>(check->Err_0)
                &&& check is Ok && complete && st.quorum_ready ==> (r is Ok <==> fin is Ok)
                &&& check is Ok && complete && st.quorum_ready && fin is Err ==> r == Err::<
                    Option<GrantCompleted>,
                    ContractError,
                >(fin->Err_0)
                &&& check is Ok && complete && st.quorum_ready && fin is Ok ==> r == Ok::<
                    Option<GrantCompleted>,
                    ContractError,
                >(Some(old(self).spec_completed_event(grant_id, now, fin->Ok_0)))
                &&& check is Ok && !(complete && st.quorum_ready) ==> r == Ok::<Option<GrantCompleted>, ContractError>(
                    None)
                &&& r is Err ==> *final(self) == *old(self) && final(transfers)@ == old(transfers)@
                &&& r is Ok ==> forall|g: u64, s: AccountId| #[trigger] final(self).approved_release(g, s) == ((g
                    == grant_id && s == signer) || old(self).approved_release(g, s))
                &&& r is Ok && complete && st.quorum_ready ==> {
                    &&& old(self).spec_finalized(final(self), old(transfers)@, final(transfers)@, grant_id, now, fin->Ok_0)
                    &&& final(self).escrow_states@ == old(self).escrow_states@.insert(
                        grant_id,
                        EscrowState {
                            lifecycle: EscrowLifecycleState::Released,
                            quorum_ready: true,
                            approvals_count: count,
                            ..st
                        },
                    )
                }
                &&& r is Ok && !(complete && st.quorum_ready) ==> {
                    &&& final(self).escrow_states@ == old(self).escrow_states@.insert(
                        grant_id,
                        EscrowState {
                            lifecycle: if complete { EscrowLifecycleState::AwaitingMultisig } else { st.lifecycle },
                            approvals_count: count,
                            ..st
                        },
                    )
                    &&& final(transfers)@ == old(transfers)@
                    &&& final(self).grants == old(self).grants
                    &&& final(self).escrow == old(self).escrow
                    &&& final(self).metrics == old(self).metrics
                    &&& final(self).milestones == old(self).milestones
                    &&& final(self).same_accounts(old(self))
                    &&& final(self).multisig_signers == old(self).multisig_signers
                }
            }),
    {
        match self.grants.get(grant_id) {
            Some(g) => {
                if g.status != GrantStatus::Active {
                    return Err(ContractError::InvalidState);
                }
            },
            None => return Err(ContractError::GrantNotFound),
        }
        let st = match self.escrow_states.get(&grant_id) {
            Some(s) => *s,
            None => return Err(ContractError::InvalidState),
        };
        if st.mode != EscrowMode::HighSecurity {
            return Err(ContractError::InvalidState);
        }
        if st.lifecycle == EscrowLifecycleState::Released {
            return Err(ContractError::GrantAlreadyReleased);
        }
        let n_signers: usize = match self.multisig_signers.get(&grant_id) {
            Some(list) => {
                if !crate::escrow::contains_account(list, signer) {
                    return Err(ContractError::NotMultisigSigner);
                }
                list.len()
            },
            None => return Err(ContractError::NotMultisigSigner),
        };
        let key = pair_key(grant_id, signer);
        let already = match self.release_approvals.get(&key) {
            Some(b) => *b,
            None => false,
        };
        if already {
            return Err(ContractError::AlreadySignedRelease);
        }
        let count = st.approvals_count + 1;
        let complete = count as usize >= n_signers;
        if complete && st.quorum_ready {
            match self.finalize_check(grant_id, now) {
                Ok(_) => {},
                Err(e) => return Err(e),
            }
        }
        let ghost before = *self;
        self.release_approvals.insert(key, true);
        proof {
            assert forall|g: u64, s: AccountId| #[trigger] self.approved_release(g, s) == ((g == grant_id && s == signer)
                || before.approved_release(g, s)) by {
                lemma_pair_key_injective(g, s, grant_id, signer);
            }
        }
        let new_state = EscrowState { approvals_count: count, ..st };
        self.escrow_states.insert(grant_id, new_state);
        if complete && st.quorum_ready {
            let ghost mid = *self;
            let done = self.finalize_grant_release(grant_id, now, transfers);
            proof {
                assert(mid.escrow_states@.insert(grant_id, mid.spec_released_state(grant_id)) =~= old(
                    self,
                ).escrow_states@.insert(
                    grant_id,
                    EscrowState {
                        lifecycle: EscrowLifecycleState::Released,
                        quorum_ready: true,
                        approvals_count: count,
                        ..st
                    },
                ));
            }
            return match done {
                Ok(event) => Ok(Some(event)),
                Err(e) => Err(e),
            };
        } else if complete {
            self.escrow_states.insert(
                grant_id,
                EscrowState { lifecycle: EscrowLifecycleState::AwaitingMultisig, ..new_state },
            );
        }
        Ok(None)
    }
}

} // verus!
