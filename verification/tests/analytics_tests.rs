use stellar_grants::analytics::{
    AnalyticsBook, MAX_WINDOW_SIZE, METRIC_GRANT_SUCCESS, METRIC_MILESTONE_COMPLETION_TIME, METRIC_REVIEWER_TURNAROUND,
    METRIC_TVL,
};
use stellar_grants::batch::try_fund_grant;
use stellar_grants::contract::StellarGrantsContract;
use stellar_grants::types::{DecayConfig, DecayType, GrantStatus, ProtocolConfig};

const OWNER: u64 = 100;
const TOKEN: u64 = 200;

fn config() -> ProtocolConfig {
    ProtocolConfig {
        quorum_threshold_bps: 5_001,
        max_reviewers: 10,
        min_stake_amount: 0,
        protocol_fee_bps: 100,
        max_milestones_per_grant: 20,
        dispute_window_ledgers: 17_280,
        max_grant_title_len: 128,
        max_grant_desc_len: 1_024,
        multisig_threshold: 0,
        rate_limit_multiplier: 1,
        referral_fee_bps: 0,
        decay_config: DecayConfig {
            enabled: false,
            decay_type: DecayType::NoDecay,
            half_life_ledgers: 0,
            linear_decay_per_day: 0,
            decay_floor: 0,
            inactivity_threshold_ledgers: 0,
        },
        reviewer_reward_pool_bps: 0,
        fast_bonus_bps: 0,
    }
}

fn funded_grant(c: &mut StellarGrantsContract, amount: i128) -> u64 {
    let id = c.grant_create(OWNER, "G".to_string(), "D".to_string(), TOKEN, 1_000, 400, 2, vec![], 0).unwrap();
    let mut t = Vec::new();
    try_fund_grant(&mut c.grants, 1, TOKEN, id, amount, &mut t).unwrap();
    id
}

#[test]
fn rolling_average_truncates() {
    let mut b = AnalyticsBook::new();
    assert_eq!(b.rolling_average(METRIC_TVL), None);
    b.record(METRIC_TVL, 10, 1);
    b.record(METRIC_TVL, 11, 2);
    assert_eq!(b.rolling_average(METRIC_TVL), Some(10));
    b.record(METRIC_TVL, -30, 3);
    // -9 / 3 = -3
    assert_eq!(b.rolling_average(METRIC_TVL), Some(-3));
}

#[test]
fn window_keeps_the_latest_points() {
    let mut b = AnalyticsBook::new();
    for i in 0..60i128 {
        b.record(7, i, i as u64);
    }
    let (size, values, timestamps, sum, count) = b.get_window(7).unwrap();
    assert_eq!(size, MAX_WINDOW_SIZE);
    assert_eq!(count, MAX_WINDOW_SIZE);
    assert_eq!(values[0], 10);
    assert_eq!(values[49], 59);
    assert_eq!(timestamps[0], 10);
    assert_eq!(sum, (10..60).sum::<i128>());
    assert!(b.get_window(8).is_none());
}

#[test]
fn category_stats_count_completed_grants() {
    let mut c = StellarGrantsContract::new(config());
    let a = funded_grant(&mut c, 300);
    let d = funded_grant(&mut c, 200);
    let mut g = c.grants.get(d).unwrap().clone();
    g.status = GrantStatus::Completed;
    c.grants.set(d, g);
    let mut b = AnalyticsBook::new();
    b.tag_grant(a, 1);
    b.tag_grant(d, 1);
    b.tag_grant(99, 1);
    let s = b.category_stats(&c.grants, 1);
    assert_eq!(s.total_grants, 2);
    assert_eq!(s.completed_grants, 1);
    assert_eq!(s.total_funded, 500);
    assert_eq!(s.success_rate_bps, 5_000);
    assert_eq!(b.category_stats(&c.grants, 2).total_grants, 0);
    assert_eq!(b.category_stats(&c.grants, 2).success_rate_bps, 0);
}

#[test]
fn snapshot_combines_the_windows() {
    let mut c = StellarGrantsContract::new(config());
    let a = funded_grant(&mut c, 300);
    let d = funded_grant(&mut c, 700);
    let mut b = AnalyticsBook::new();
    b.tag_grant(a, 4);
    b.tag_grant(d, 9);
    b.record(METRIC_MILESTONE_COMPLETION_TIME, 100, 1);
    b.record(METRIC_MILESTONE_COMPLETION_TIME, 200, 2);
    b.record(METRIC_REVIEWER_TURNAROUND, 10, 2);
    for v in [1, 0, 1, 1] {
        b.record(METRIC_GRANT_SUCCESS, v, 3);
    }
    for v in [100, 110, 120, 130, 140, 150, 160] {
        b.record(METRIC_TVL, v, 4);
    }
    assert!(b.get_snapshot().is_none());
    let s = b.build_snapshot(&c.grants, 50);
    assert_eq!(s.avg_milestone_completion_ledgers, 150);
    assert_eq!(s.avg_reviewer_turnaround_ledgers, 10);
    assert_eq!(s.overall_success_rate_bps, 7_500);
    assert_eq!(s.top_category_id, Some(9));
    assert_eq!(s.tvl_7day_growth_bps, 6_000);
    assert_eq!(s.snapshot_at, 50);
    assert_eq!(b.get_snapshot(), Some(s));
}

#[test]
fn snapshot_without_data_is_zero() {
    let c = StellarGrantsContract::new(config());
    let mut b = AnalyticsBook::new();
    let s = b.build_snapshot(&c.grants, 5);
    assert_eq!(s.avg_milestone_completion_ledgers, 0);
    assert_eq!(s.overall_success_rate_bps, 0);
    assert_eq!(s.top_category_id, None);
    assert_eq!(s.tvl_7day_growth_bps, 0);
}
