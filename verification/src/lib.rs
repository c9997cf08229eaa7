use vstd::prelude::*;

pub mod access_control;
pub mod analytics;
pub mod arbitration_pool;
pub mod arith;
pub mod batch;
pub mod compliance;
pub mod constants;
pub mod contract;
pub mod contract_disputes;
pub mod digest;
pub mod dispute;
pub mod escrow;
pub mod evidence_schema;
pub mod errors;
pub mod events;
pub mod fees;
pub mod fork;
pub mod funding;
pub mod grant_index;
pub mod grant_transfer;
pub mod grants;
pub mod hooks;
pub mod insurance;
pub mod invoice;
pub mod keys;
pub mod matching;
pub mod milestone_deps;
pub mod milestone_extension;
pub mod laws;
pub mod metrics;
pub mod milestones;
pub mod multi_grant;
pub mod notification;
pub mod params;
pub mod performance_bond;
pub mod referral;
pub mod release;
pub mod reputation;
pub mod review;
pub mod reputation_decay;
pub mod reviewer_reward;
pub mod reviewer_sla;
pub mod staking;
pub mod streaming;
pub mod submission;
pub mod syndication;
pub mod types;
pub mod versioning;

verus! {
}
