use vstd::prelude::*;
use std::collections::HashMap;

use crate::arith::{clamp_i128, clamp_u32, sat_add_i128, sat_sub_i128};
use crate::errors::ContractError;
use crate::types::{AccountId, ProtocolMetrics};

verus! {

broadcast use vstd::std_specs::hash::group_hash_axioms;

/// Which protocol counter an event bumps.
#[derive(Clone, Copy, Debug, PartialEq, Eq, Structural)]
pub enum MetricField {
    GrantsCreated,
    GrantsActive,
    GrantsCompleted,
    GrantsCancelled,
    MilestonesApproved,
    MilestonesRejected,
    MilestonesPaid,
    ContributorsRegistered,
    DisputesRaised,
    DisputesResolved,
    BountiesCreated,
    BountiesAwarded,
}

/// Money that went through the protocol in one token.
#[derive(Clone, Copy, Debug, PartialEq, Eq, Structural)]
pub struct TokenMetric {
    pub token: AccountId,
    pub total_locked: i128,
    pub total_paid_out: i128,
    pub total_refunded: i128,
}

/// All counters zero, stamped with `now`.
pub open spec fn spec_default_metrics(now: u64) -> ProtocolMetrics {
    ProtocolMetrics {
        total_grants_created: 0,
        total_grants_active: 0,
        total_grants_completed: 0,
        total_grants_cancelled: 0,
        total_milestones_approved: 0,
        total_milestones_rejected: 0,
        total_milestones_paid: 0,
        total_contributors_registered: 0,
        total_disputes_raised: 0,
        total_disputes_resolved: 0,
        total_bounties_created: 0,
        total_bounties_awarded: 0,
        last_updated: now,
    }
}

pub fn default_metrics(now: u64) -> (m: ProtocolMetrics)
    ensures
        m == spec_default_metrics(now),
{
    ProtocolMetrics {
        total_grants_created: 0,
        total_grants_active: 0,
        total_grants_completed: 0,
        total_grants_cancelled: 0,
        total_milestones_approved: 0,
        total_milestones_rejected: 0,
        total_milestones_paid: 0,
        total_contributors_registered: 0,
        total_disputes_raised: 0,
        total_disputes_resolved: 0,
        total_bounties_created: 0,
        total_bounties_awarded: 0,
        last_updated: now,
    }
}

pub open spec fn sat_add(a: u32, d: u32) -> u32 {
    clamp_u32(a + d) as u32
}

pub open spec fn sat_sub(a: u32, d: u32) -> u32 {
    clamp_u32(a - d) as u32
}

/// `m` after bumping `field` by `delta` at `now`. A grant that completes or is cancelled
/// also leaves the active count.
pub open spec fn spec_increment(m: ProtocolMetrics, field: MetricField, delta: u32, now: u64) -> ProtocolMetrics {
    let b = match field {
        MetricField::GrantsCreated => ProtocolMetrics { total_grants_created: sat_add(m.total_grants_created, delta), ..m },
        MetricField::GrantsActive => ProtocolMetrics { total_grants_active: sat_add(m.total_grants_active, delta), ..m },
        MetricField::GrantsCompleted => ProtocolMetrics {
            total_grants_completed: sat_add(m.total_grants_completed, delta),
            total_grants_active: sat_sub(m.total_grants_active, delta),
            ..m
        },
        MetricField::GrantsCancelled => ProtocolMetrics {
            total_grants_cancelled: sat_add(m.total_grants_cancelled, delta),
            total_grants_active: sat_sub(m.total_grants_active, delta),
            ..m
        },
        MetricField::MilestonesApproved => ProtocolMetrics {
            total_milestones_approved: sat_add(m.total_milestones_approved, delta),
            ..m
        },
        MetricField::MilestonesRejected => ProtocolMetrics {
            total_milestones_rejected: sat_add(m.total_milestones_rejected, delta),
            ..m
        },
        MetricField::MilestonesPaid => ProtocolMetrics { total_milestones_paid: sat_add(m.total_milestones_paid, delta), ..m },
        MetricField::ContributorsRegistered => ProtocolMetrics {
            total_contributors_registered: sat_add(m.total_contributors_registered, delta),
            ..m
        },
        MetricField::DisputesRaised => ProtocolMetrics { total_disputes_raised: sat_add(m.total_disputes_raised, delta), ..m },
        MetricField::DisputesResolved => ProtocolMetrics {
            total_disputes_resolved: sat_add(m.total_disputes_resolved, delta),
            ..m
        },
        MetricField::BountiesCreated => ProtocolMetrics { total_bounties_created: sat_add(m.total_bounties_created, delta), ..m },
        MetricField::BountiesAwarded => ProtocolMetrics {
            total_bounties_awarded: sat_add(m.total_bounties_awarded, delta),
            ..m
        },
    };
    ProtocolMetrics { last_updated: now, ..b }
}

/// `|delta|`, saturating at `i128::MAX`.
pub open spec fn spec_sat_abs(delta: i128) -> int {
    if delta == i128::MIN { i128::MAX as int } else if delta < 0 { -delta } else { delta as int }
}

/// Whether a release of `delta` can be booked on `tm` (a release larger than what is locked
/// books the excess as paid out, which must fit).
pub open spec fn spec_locked_update_fits(tm: TokenMetric, delta: i128) -> bool {
    delta > 0 || spec_sat_abs(delta) <= tm.total_locked || i128::MIN <= spec_sat_abs(delta) - tm.total_locked
        <= i128::MAX
}

/// `tm` after a change of `delta` in locked funds: a deposit adds to what is locked; a
/// release takes from it and counts as paid out, and what exceeds the locked amount is
/// paid out on top of it.
pub open spec fn spec_locked_update(tm: TokenMetric, delta: i128) -> TokenMetric {
    if delta > 0 {
        TokenMetric { total_locked: clamp_i128(tm.total_locked + delta) as i128, ..tm }
    } else {
        let d = spec_sat_abs(delta);
        if d > tm.total_locked {
            TokenMetric {
                total_paid_out: clamp_i128(tm.total_paid_out + (d - tm.total_locked)) as i128,
                total_locked: 0,
                ..tm
            }
        } else {
            TokenMetric {
                total_locked: clamp_i128(tm.total_locked - d) as i128,
                total_paid_out: clamp_i128(tm.total_paid_out + d) as i128,
                ..tm
            }
        }
    }
}

/// `tm` after a refund of `amount`.
pub open spec fn spec_refund_update(tm: TokenMetric, amount: i128) -> TokenMetric {
    TokenMetric {
        total_locked: clamp_i128(tm.total_locked - amount) as i128,
        total_refunded: clamp_i128(tm.total_refunded + amount) as i128,
        ..tm
    }
}

/// The protocol counters and the per-token money metrics.
pub struct MetricsBook {
    metrics: Option<ProtocolMetrics>,
    tokens: HashMap<u64, TokenMetric>,
}

impl MetricsBook {
    /// The stored counters, if any were ever written.
    pub closed spec fn stored(&self) -> Option<ProtocolMetrics> {
        self.metrics
    }

    /// The counters as read at `now`: the stored ones, or zeros stamped `now`.
    pub open spec fn current(&self, now: u64) -> ProtocolMetrics {
        match self.stored() {
            Some(m) => m,
            None => spec_default_metrics(now),
        }
    }

    /// The metric of a token: the stored one, or zeros.
    pub closed spec fn token_metric(&self, token: AccountId) -> TokenMetric {
        if self.tokens@.contains_key(token) {
            self.tokens@[token]
        } else {
            TokenMetric { token, total_locked: 0, total_paid_out: 0, total_refunded: 0 }
        }
    }

    pub fn new() -> (b: MetricsBook)
        ensures
            b.stored() is None,
            forall|t: AccountId| #[trigger] b.token_metric(t) == (TokenMetric {
                token: t,
                total_locked: 0,
                total_paid_out: 0,
                total_refunded: 0,
            }),
    {
        MetricsBook { metrics: None, tokens: HashMap::new() }
    }

    /// A copy of the book with the same counters and token metrics.
    pub fn duplicate(&self) -> (r: MetricsBook)
        ensures
            r.stored() == self.stored(),
            forall|t: AccountId| #[trigger] r.token_metric(t) == self.token_metric(t),
    {
        MetricsBook { metrics: self.metrics, tokens: self.tokens.clone() }
    }

    /// The protocol counters at `now`.
    pub fn get_metrics(&self, now: u64) -> (m: ProtocolMetrics)
        ensures
            m == self.current(now),
    {
        match self.metrics {
            Some(m) => m,
            None => default_metrics(now),
        }
    }

    /// The money metrics of `token`.
    pub fn get_token_metrics(&self, token: AccountId) -> (tm: TokenMetric)
        ensures
            tm == self.token_metric(token),
    {
        match self.tokens.get(&token) {
            Some(t) => *t,
            None => TokenMetric { token, total_locked: 0, total_paid_out: 0, total_refunded: 0 },
        }
    }

    /// Bump a counter by `delta` (saturating); never fails.
    pub fn increment(&mut self, field: MetricField, delta: u32, now: u64)
        ensures
            final(self).stored() == Some(spec_increment(old(self).current(now), field, delta, now)),
            forall|t: AccountId| #[trigger] final(self).token_metric(t) == old(self).token_metric(t),
    {
        let mut m = self.get_metrics(now);
        match field {
            MetricField::GrantsCreated => {
                m.total_grants_created = m.total_grants_created.saturating_add(delta);
            },
            MetricField::GrantsActive => {
                m.total_grants_active = m.total_grants_active.saturating_add(delta);
            },
            MetricField::GrantsCompleted => {
                m.total_grants_completed = m.total_grants_completed.saturating_add(delta);
                m.total_grants_active = m.total_grants_active.saturating_sub(delta);
            },
            MetricField::GrantsCancelled => {
                m.total_grants_cancelled = m.total_grants_cancelled.saturating_add(delta);
                m.total_grants_active = m.total_grants_active.saturating_sub(delta);
            },
            MetricField::MilestonesApproved => {
                m.total_milestones_approved = m.total_milestones_approved.saturating_add(delta);
            },
            MetricField::MilestonesRejected => {
                m.total_milestones_rejected = m.total_milestones_rejected.saturating_add(delta);
            },
            MetricField::MilestonesPaid => {
                m.total_milestones_paid = m.total_milestones_paid.saturating_add(delta);
            },
            MetricField::ContributorsRegistered => {
                m.total_contributors_registered = m.total_contributors_registered.saturating_add(delta);
            },
            MetricField::DisputesRaised => {
                m.total_disputes_raised = m.total_disputes_raised.saturating_add(delta);
            },
            MetricField::DisputesResolved => {
                m.total_disputes_resolved = m.total_disputes_resolved.saturating_add(delta);
            },
            MetricField::BountiesCreated => {
                m.total_bounties_created = m.total_bounties_created.saturating_add(delta);
            },
            MetricField::BountiesAwarded => {
                m.total_bounties_awarded = m.total_bounties_awarded.saturating_add(delta);
            },
        }
        m.last_updated = now;
        self.metrics = Some(m);
    }

    fn set_token(&mut self, token: AccountId, tm: TokenMetric)
        ensures
            final(self).stored() == old(self).stored(),
            forall|t: AccountId| #[trigger] final(self).token_metric(t) == if t == token {
                tm
            } else {
                old(self).token_metric(t)
            },
    {
        self.tokens.insert(token, tm);
    }

    /// Book a change of `delta` in the funds locked in `token` (positive: deposit; otherwise
    /// release), with saturating arithmetic.
    pub fn update_token_locked(&mut self, token: AccountId, delta: i128)
        requires
            spec_locked_update_fits(old(self).token_metric(token), delta),
        ensures
            final(self).stored() == old(self).stored(),
            forall|t: AccountId| #[trigger] final(self).token_metric(t) == if t == token {
                spec_locked_update(old(self).token_metric(token), delta)
            } else {
                old(self).token_metric(t)
            },
    {
        let mut tm = self.get_token_metrics(token);
        if delta > 0 {
            tm.total_locked = sat_add_i128(tm.total_locked, delta);
        } else {
            let decrease: i128 = if delta == i128::MIN { i128::MAX } else { -delta };
            if decrease > tm.total_locked {
                tm.total_paid_out = sat_add_i128(tm.total_paid_out, decrease - tm.total_locked);
                tm.total_locked = 0;
            } else {
                tm.total_locked = sat_sub_i128(tm.total_locked, decrease);
                tm.total_paid_out = sat_add_i128(tm.total_paid_out, decrease);
            }
        }
        self.set_token(token, tm);
    }

    /// Book a refund of `amount` in `token` (saturating).
    pub fn record_token_refund(&mut self, token: AccountId, amount: i128)
        ensures
            final(self).stored() == old(self).stored(),
            forall|t: AccountId| #[trigger] final(self).token_metric(t) == if t == token {
                spec_refund_update(old(self).token_metric(token), amount)
            } else {
                old(self).token_metric(t)
            },
    {
        let mut tm = self.get_token_metrics(token);
        tm.total_locked = sat_sub_i128(tm.total_locked, amount);
        tm.total_refunded = sat_add_i128(tm.total_refunded, amount);
        self.set_token(token, tm);
    }

    /// Zero all counters (stamped `now`); only the global admin may.
    pub fn reset(&mut self, admin: AccountId, global_admin: Option<AccountId>, now: u64) -> (r: Result<(), ContractError>)
        ensures
            global_admin != Some(admin) ==> r == Err::<(), ContractError>(ContractError::Unauthorized) && *final(self)
                == *old(self),
            global_admin == Some(admin) ==> r is Ok && final(self).stored() == Some(spec_default_metrics(now)),
            forall|t: AccountId| #[trigger] final(self).token_metric(t) == old(self).token_metric(t),
    {
        match global_admin {
            Some(a) => {
                if a != admin {
                    return Err(ContractError::Unauthorized);
                }
            },
            None => {
                return Err(ContractError::Unauthorized);
            },
        }
        self.metrics = Some(default_metrics(now));
        Ok(())
    }
}

} // verus!
