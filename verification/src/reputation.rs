use vstd::prelude::*;

use crate::arith::{clamp_u64, min_int};
use crate::types::{ContributorProfile, ReputationTier};

verus! {

pub const DELIVERY_RATE_WEIGHT_BPS: u64 = 5000;
pub const EARNINGS_WEIGHT_BPS: u64 = 3000;
pub const REJECTION_PENALTY_BPS: u64 = 200;
pub const MAX_SCORE: u64 = 1000;
pub const EARNINGS_NORMALIZATION: i128 = 10_000_000_000;

/// Share of delivered milestones, weighted to at most 5000 bps.
pub open spec fn spec_delivery_component(completed: int, rejected: int) -> int {
    let attempted = if completed + rejected > u32::MAX { u32::MAX as int } else { completed + rejected };
    if attempted == 0 { 0 } else { (completed * 5000) / attempted }
}

/// Earnings, capped at the normalisation amount, weighted to at most 3000 bps.
pub open spec fn spec_earnings_component(total_earned: int) -> int {
    if total_earned <= 0 { 0 } else { (min_int(total_earned, 10_000_000_000) * 3000) / 10_000_000_000 }
}

/// The reputation score, 0..=1000, of a contributor with the given delivery record:
/// delivery rate plus earnings, less 200 bps per rejection (not below zero), scaled
/// from basis points to the 0..=1000 range.
pub open spec fn spec_score(completed: int, rejected: int, total_earned: int) -> int {
    let raw = clamp_u64(spec_delivery_component(completed, rejected) + spec_earnings_component(total_earned)
        - rejected * 200);
    min_int(clamp_u64(raw * 1000) / 10_000, 1000)
}

pub fn calculate_score(profile: &ContributorProfile) -> (r: u32)
    ensures
        r == spec_score(profile.milestones_completed as int, profile.milestones_rejected as int,
            profile.total_earned as int),
        r <= 1000,
{
    let total_attempted = profile.milestones_completed.saturating_add(profile.milestones_rejected) as u64;

    let delivery_rate_score: u64 = if total_attempted == 0 {
        0
    } else {
        (profile.milestones_completed as u64 * DELIVERY_RATE_WEIGHT_BPS) / total_attempted
    };

    let earnings_normalized: u64 = if profile.total_earned <= 0 {
        0
    } else {
        let capped = if profile.total_earned < EARNINGS_NORMALIZATION {
            profile.total_earned
        } else {
            EARNINGS_NORMALIZATION
        };
        (capped as u64 * EARNINGS_WEIGHT_BPS) / (EARNINGS_NORMALIZATION as u64)
    };

    let rejection_penalty: u64 = profile.milestones_rejected as u64 * REJECTION_PENALTY_BPS;

    proof {
        let c = profile.milestones_completed as int;
        let t = total_attempted as int;
        if t > 0 {
            assert((c * 5000) / t <= 5000) by (nonlinear_arith)
                requires 0 <= c <= t, t > 0;
        }
    }
    let raw = (delivery_rate_score + earnings_normalized).saturating_sub(rejection_penalty);
    let scaled = (raw * MAX_SCORE) / 10_000;
    if scaled < MAX_SCORE { scaled as u32 } else { MAX_SCORE as u32 }
}

/// The tier band that a score falls in.
pub open spec fn spec_tier(score: int) -> ReputationTier {
    if score <= 99 {
        ReputationTier::Unranked
    } else if score <= 399 {
        ReputationTier::Bronze
    } else if score <= 699 {
        ReputationTier::Silver
    } else if score <= 899 {
        ReputationTier::Gold
    } else {
        ReputationTier::Platinum
    }
}

pub fn tier_from_score(score: u32) -> (t: ReputationTier)
    ensures
        t == spec_tier(score as int),
{
    if score <= 99 {
        ReputationTier::Unranked
    } else if score <= 399 {
        ReputationTier::Bronze
    } else if score <= 699 {
        ReputationTier::Silver
    } else if score <= 899 {
        ReputationTier::Gold
    } else {
        ReputationTier::Platinum
    }
}

/// Record a delivered milestone: one more completion, the amount added to earnings
/// (saturating), and the score recomputed. Returns the new score.
pub fn record_completion(profile: &mut ContributorProfile, amount_earned: i128) -> (r: u32)
    ensures
        final(profile).milestones_completed == (if old(profile).milestones_completed == u32::MAX {
            u32::MAX as int } else { old(profile).milestones_completed + 1 }),
        final(profile).total_earned == crate::arith::clamp_i128(old(profile).total_earned + amount_earned),
        final(profile).milestones_rejected == old(profile).milestones_rejected,
        r == spec_score(final(profile).milestones_completed as int, final(profile).milestones_rejected as int,
            final(profile).total_earned as int),
        final(profile).reputation_score == r,
        final(profile).contributor == old(profile).contributor,
        final(profile).last_action_at == old(profile).last_action_at,
        final(profile).grants_count == old(profile).grants_count,
{
    profile.milestones_completed = profile.milestones_completed.saturating_add(1);
    profile.total_earned = crate::arith::sat_add_i128(profile.total_earned, amount_earned);
    let new_score = calculate_score(profile);
    profile.reputation_score = new_score as u64;
    new_score
}

/// Record a rejected milestone: one more rejection and the score recomputed.
pub fn record_rejection(profile: &mut ContributorProfile) -> (r: u32)
    ensures
        final(profile).milestones_rejected == (if old(profile).milestones_rejected == u32::MAX {
            u32::MAX as int } else { old(profile).milestones_rejected + 1 }),
        final(profile).milestones_completed == old(profile).milestones_completed,
        final(profile).total_earned == old(profile).total_earned,
        r == spec_score(final(profile).milestones_completed as int, final(profile).milestones_rejected as int,
            final(profile).total_earned as int),
        final(profile).reputation_score == r,
        final(profile).contributor == old(profile).contributor,
        final(profile).last_action_at == old(profile).last_action_at,
        final(profile).grants_count == old(profile).grants_count,
{
    profile.milestones_rejected = profile.milestones_rejected.saturating_add(1);
    let new_score = calculate_score(profile);
    profile.reputation_score = new_score as u64;
    new_score
}

} // verus!
