use vstd::prelude::*;
use vstd::arithmetic::power2::pow2;

use crate::arith::{clamp_u32, max_int};
use crate::types::{ContributorProfile, DecayConfig, DecayType};

verus! {

/// Whole days of inactivity between `last_action_at` and `now` (timestamps in seconds).
pub open spec fn spec_days_inactive(now: u64, last_action_at: u64) -> u32 {
    if now <= last_action_at { 0 } else { ((now - last_action_at) / 86400) as u32 }
}

/// Ledgers of inactivity (one ledger every five seconds) between `last_action_at` and `now`.
pub open spec fn spec_ledgers_inactive(now: u64, last_action_at: u64) -> u32 {
    if now <= last_action_at { 0 } else { ((now - last_action_at) / 5) as u32 }
}

pub fn days_inactive(now: u64, last_action_at: u64) -> (r: u32)
    ensures
        r == spec_days_inactive(now, last_action_at),
{
    if now <= last_action_at {
        return 0;
    }
    let secs_inactive = now - last_action_at;
    #[verifier::truncate]
    ((secs_inactive / 86400) as u32)
}

pub fn ledgers_inactive(now: u64, last_action_at: u64) -> (r: u32)
    ensures
        r == spec_ledgers_inactive(now, last_action_at),
{
    if now <= last_action_at {
        return 0;
    }
    let secs_inactive = now - last_action_at;
    #[verifier::truncate]
    ((secs_inactive / 5) as u32)
}

/// Linear decay: the score less `linear_decay_per_day` for each inactive day, never below the floor.
pub open spec fn spec_linear_decay(raw: u32, inactive_days: u32, config: DecayConfig) -> int {
    let loss = clamp_u32(inactive_days * config.linear_decay_per_day);
    max_int(if raw >= loss { raw - loss } else { 0 }, config.decay_floor as int)
}

/// Exponential decay: the score halved once per elapsed half-life (zero after 32 halvings),
/// never below the floor; unchanged when the half-life is zero or nothing elapsed.
pub open spec fn spec_exponential_decay(raw: u32, inactive_ledgers: u32, config: DecayConfig) -> int {
    if config.half_life_ledgers == 0 || inactive_ledgers == 0 {
        raw as int
    } else {
        let shifts = inactive_ledgers / config.half_life_ledgers;
        let decayed: int = if shifts >= 32 { 0 } else { raw as int / pow2(shifts as nat) as int };
        max_int(decayed, config.decay_floor as int)
    }
}

pub fn linear_decay(raw: u32, inactive_days: u32, config: &DecayConfig) -> (r: u32)
    ensures
        r == spec_linear_decay(raw, inactive_days, *config),
{
    let loss = crate::arith::sat_mul_u32(inactive_days, config.linear_decay_per_day);
    let decayed = (raw as u64).saturating_sub(loss as u64);
    if decayed >= config.decay_floor as u64 {
        decayed as u32
    } else {
        config.decay_floor
    }
}

pub fn exponential_decay(raw: u32, inactive_ledgers: u32, config: &DecayConfig) -> (r: u32)
    ensures
        r == spec_exponential_decay(raw, inactive_ledgers, *config),
{
    if config.half_life_ledgers == 0 || inactive_ledgers == 0 {
        return raw;
    }
    let shifts = inactive_ledgers / config.half_life_ledgers;
    let decayed: u64 = if shifts >= 32 {
        0
    } else {
        let x = raw as u64;
        let s = shifts as u64;
        proof {
            vstd::bits::lemma_u64_shr_is_div(x, s);
            vstd::arithmetic::power2::lemma_pow2_pos(s as nat);
            assert(x as nat / pow2(s as nat) <= x) by {
                vstd::arithmetic::div_mod::lemma_div_is_ordered_by_denominator(x as int, 1, pow2(s as nat) as int);
            }
        }
        x >> s
    };
    if decayed >= config.decay_floor as u64 {
        decayed as u32
    } else {
        config.decay_floor
    }
}

/// The score after decay for an activity gap measured at `now`: unchanged when decay is
/// disabled or the gap is below the inactivity threshold, otherwise linear or exponential decay.
pub open spec fn spec_apply_decay(now: u64, raw: u32, last_action_at: u64, config: DecayConfig) -> int {
    let idle = spec_ledgers_inactive(now, last_action_at);
    if !config.enabled || idle < config.inactivity_threshold_ledgers {
        raw as int
    } else {
        match config.decay_type {
            DecayType::NoDecay => raw as int,
            DecayType::Linear => spec_linear_decay(raw, spec_days_inactive(now, last_action_at), config),
            DecayType::Exponential => spec_exponential_decay(raw, idle, config),
        }
    }
}

pub fn apply_decay(now: u64, raw_score: u32, last_action_at: u64, config: &DecayConfig) -> (r: u32)
    ensures
        r == spec_apply_decay(now, raw_score, last_action_at, *config),
{
    if !config.enabled {
        return raw_score;
    }
    let ledgers_idle = ledgers_inactive(now, last_action_at);
    if ledgers_idle < config.inactivity_threshold_ledgers {
        return raw_score;
    }
    match config.decay_type {
        DecayType::NoDecay => raw_score,
        DecayType::Linear => {
            let days_idle = days_inactive(now, last_action_at);
            linear_decay(raw_score, days_idle, config)
        },
        DecayType::Exponential => exponential_decay(raw_score, ledgers_idle, config),
    }
}

/// The contributor's score (its low 32 bits, as stored) after decay at `now`.
pub fn effective_score(now: u64, profile: &ContributorProfile, config: &DecayConfig) -> (r: u32)
    ensures
        r == spec_apply_decay(now, profile.reputation_score as u32, profile.last_action_at, *config),
{
    #[verifier::truncate]
    let raw = profile.reputation_score as u32;
    apply_decay(now, raw, profile.last_action_at, config)
}

/// Note activity at `now` on the contributor's profile.
pub fn record_activity(profile: &mut ContributorProfile, now: u64)
    ensures
        *final(profile) == (ContributorProfile { last_action_at: now, ..*old(profile) }),
{
    profile.last_action_at = now;
}

} // verus!
