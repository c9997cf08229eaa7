use vstd::prelude::*;

verus! {

// Financial
pub const BASIS_POINTS_SCALE: u32 = 10_000;
pub const DEFAULT_PROTOCOL_FEE_BPS: u32 = 100;
pub const MAX_PROTOCOL_FEE_BPS: u32 = 1_000;
pub const MIN_GRANT_AMOUNT: i128 = 1_000_000;
pub const MAX_GRANT_AMOUNT: i128 = 1_000_000_000_000;

// Governance
pub const DEFAULT_QUORUM_THRESHOLD_BPS: u32 = 5_001;
pub const MAX_REVIEWERS_PER_GRANT: u32 = 10;
pub const MIN_REVIEWERS_PER_GRANT: u32 = 1;

// Ledger timing
pub const LEDGERS_PER_SECOND: u64 = 1;
pub const LEDGERS_PER_HOUR: u32 = 720;
pub const LEDGERS_PER_DAY: u32 = 17_280;
pub const DEFAULT_TIMELOCK_DELAY_LEDGERS: u32 = 34_560;
pub const DEFAULT_DISPUTE_WINDOW_LEDGERS: u32 = 17_280;

// String limits
pub const MAX_TITLE_LEN: u32 = 128;
pub const MAX_DESCRIPTION_LEN: u32 = 1_024;
pub const MAX_PROOF_URL_LEN: u32 = 512;
pub const MAX_BIO_LEN: u32 = 256;

// Pagination
pub const MAX_PAGE_SIZE: u32 = 50;
pub const DEFAULT_PAGE_SIZE: u32 = 20;

// Reputation
pub const MAX_REPUTATION_SCORE: u32 = 1_000;
pub const REPUTATION_REJECTION_PENALTY: u32 = 200;

// Milestones
pub const MAX_MILESTONES_PER_GRANT: u32 = 20;
pub const MAX_BATCH_SIZE: u32 = 10;

// Insurance: premium rate and policy lifetime (in ledger-timestamp seconds).
pub const DEFAULT_INSURANCE_PREMIUM_RATE_BPS: u32 = 50;
pub const DEFAULT_INSURANCE_DURATION_LEDGERS: u32 = 6_307_200;

// Hooks and notifications
pub const MAX_HOOKS_PER_EVENT: u32 = 5;
pub const MAX_SUBSCRIPTIONS_PER_ADDRESS: u32 = 50;

/// The account id under which the contract itself holds tokens.
pub const CONTRACT_ACCOUNT: u64 = 0;

} // verus!
