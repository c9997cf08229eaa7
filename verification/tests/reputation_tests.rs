use stellar_grants::reputation::{calculate_score, record_completion, record_rejection, tier_from_score, EARNINGS_NORMALIZATION};
use stellar_grants::types::{ContributorProfile, ReputationTier};

fn blank_profile() -> ContributorProfile {
    ContributorProfile {
        contributor: 1,
        name: "Alice".to_string(),
        bio: "Builder".to_string(),
        skills: Vec::new(),
        github_url: "https://github.com/alice".to_string(),
        registration_timestamp: 0,
        reputation_score: 0,
        grants_count: 0,
        total_earned: 0,
        milestones_completed: 0,
        milestones_rejected: 0,
        last_action_at: 0,
    }
}

#[test]
fn test_score_from_scratch_is_zero() {
    let profile = blank_profile();
    assert_eq!(calculate_score(&profile), 0);
}

#[test]
fn test_tier_boundary_unranked_to_bronze() {
    assert_eq!(tier_from_score(99), ReputationTier::Unranked);
    assert_eq!(tier_from_score(100), ReputationTier::Bronze);
}

#[test]
fn test_tier_boundary_gold_to_platinum() {
    assert_eq!(tier_from_score(899), ReputationTier::Gold);
    assert_eq!(tier_from_score(900), ReputationTier::Platinum);
}

#[test]
fn test_rejection_lowers_score() {
    let mut profile = blank_profile();
    profile.milestones_completed = 5;
    profile.total_earned = 1_000_000_000;
    let score_before = calculate_score(&profile);

    profile.milestones_rejected = 3;
    let score_after = calculate_score(&profile);
    assert!(score_after < score_before);
}

#[test]
fn test_perfect_delivery_scores_high() {
    let mut profile = blank_profile();
    profile.milestones_completed = 10;
    profile.total_earned = EARNINGS_NORMALIZATION;
    let score = calculate_score(&profile);
    assert!(score >= 700, "expected gold+ for perfect delivery, got {score}");
}

#[test]
fn test_score_does_not_exceed_max() {
    let mut profile = blank_profile();
    profile.milestones_completed = 1000;
    profile.total_earned = i128::MAX / 2;
    let score = calculate_score(&profile);
    assert!(score <= 1000);
}

#[test]
fn perfect_delivery_with_full_earnings_scores_eight_hundred() {
    let mut profile = blank_profile();
    profile.milestones_completed = 4;
    profile.total_earned = EARNINGS_NORMALIZATION;
    assert_eq!(calculate_score(&profile), 800);
}

#[test]
fn tiers_rise_with_score() {
    assert_eq!(tier_from_score(0), ReputationTier::Unranked);
    assert_eq!(tier_from_score(399), ReputationTier::Bronze);
    assert_eq!(tier_from_score(400), ReputationTier::Silver);
    assert_eq!(tier_from_score(699), ReputationTier::Silver);
    assert_eq!(tier_from_score(700), ReputationTier::Gold);
    assert_eq!(tier_from_score(u32::MAX), ReputationTier::Platinum);
}

#[test]
fn completion_and_rejection_update_the_profile() {
    let mut profile = blank_profile();
    let s1 = record_completion(&mut profile, 5_000_000_000);
    assert_eq!(profile.milestones_completed, 1);
    assert_eq!(profile.total_earned, 5_000_000_000);
    assert_eq!(s1, 650);
    assert_eq!(profile.reputation_score, 650);
    let s2 = record_rejection(&mut profile);
    assert_eq!(profile.milestones_rejected, 1);
    assert!(s2 < s1);
}
