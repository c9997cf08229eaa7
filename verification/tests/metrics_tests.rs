use stellar_grants::errors::ContractError;
use stellar_grants::metrics::{default_metrics, MetricField, MetricsBook, TokenMetric};

const TOKEN: u64 = 200;

#[test]
fn fresh_metrics_are_zero() {
    let b = MetricsBook::new();
    let m = b.get_metrics(42);
    assert_eq!(m, default_metrics(42));
    assert_eq!(m.total_grants_created, 0);
    assert_eq!(m.last_updated, 42);
    assert_eq!(
        b.get_token_metrics(TOKEN),
        TokenMetric { token: TOKEN, total_locked: 0, total_paid_out: 0, total_refunded: 0 }
    );
}

#[test]
fn completion_and_cancellation_leave_the_active_count() {
    let mut b = MetricsBook::new();
    b.increment(MetricField::GrantsCreated, 3, 1);
    b.increment(MetricField::GrantsActive, 3, 1);
    b.increment(MetricField::GrantsCompleted, 1, 2);
    b.increment(MetricField::GrantsCancelled, 1, 3);
    let m = b.get_metrics(99);
    assert_eq!(m.total_grants_created, 3);
    assert_eq!(m.total_grants_active, 1);
    assert_eq!(m.total_grants_completed, 1);
    assert_eq!(m.total_grants_cancelled, 1);
    assert_eq!(m.last_updated, 3);
    // the active count does not go below zero.
    b.increment(MetricField::GrantsCancelled, 5, 4);
    assert_eq!(b.get_metrics(0).total_grants_active, 0);
}

#[test]
fn counters_saturate() {
    let mut b = MetricsBook::new();
    b.increment(MetricField::DisputesRaised, u32::MAX, 1);
    b.increment(MetricField::DisputesRaised, 7, 2);
    assert_eq!(b.get_metrics(0).total_disputes_raised, u32::MAX);
}

#[test]
fn token_locked_moves_to_paid_out() {
    let mut b = MetricsBook::new();
    b.update_token_locked(TOKEN, 1_000);
    b.update_token_locked(TOKEN, -300);
    let tm = b.get_token_metrics(TOKEN);
    assert_eq!((tm.total_locked, tm.total_paid_out), (700, 300));
    // releasing more than is locked books all of it as paid out.
    b.update_token_locked(TOKEN, -900);
    let tm = b.get_token_metrics(TOKEN);
    assert_eq!((tm.total_locked, tm.total_paid_out), (0, 500));
    assert_eq!(b.get_token_metrics(201).total_locked, 0);
}

#[test]
fn refunds_leave_the_locked_total() {
    let mut b = MetricsBook::new();
    b.update_token_locked(TOKEN, 500);
    b.record_token_refund(TOKEN, 200);
    let tm = b.get_token_metrics(TOKEN);
    assert_eq!((tm.total_locked, tm.total_refunded, tm.total_paid_out), (300, 200, 0));
}

#[test]
fn reset_is_admin_only() {
    let mut b = MetricsBook::new();
    b.increment(MetricField::BountiesCreated, 2, 1);
    assert_eq!(b.reset(5, None, 9), Err(ContractError::Unauthorized));
    assert_eq!(b.reset(5, Some(6), 9), Err(ContractError::Unauthorized));
    assert_eq!(b.get_metrics(0).total_bounties_created, 2);
    b.update_token_locked(TOKEN, 10);
    b.reset(5, Some(5), 9).unwrap();
    assert_eq!(b.get_metrics(0), default_metrics(9));
    assert_eq!(b.get_token_metrics(TOKEN).total_locked, 10);
}
