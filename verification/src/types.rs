use vstd::prelude::*;

verus! {

/// Accounts (users, tokens and contracts) are identified by a number; `CONTRACT_ACCOUNT`
/// is the contract itself.
pub type AccountId = u64;

#[derive(Clone, Copy, Debug, PartialEq, Eq, Structural)]
pub enum RegistryEntryType {
    Contributor,
    Reviewer,
}

#[derive(Clone, Copy, Debug, PartialEq, Eq, Structural)]
pub enum ContributionType {
    GrantCreated,
    MilestoneDelivered,
    MilestoneReviewed,
    GrantFunded,
    DisputeResolved,
    BountyDelivered,
    ArbitrationProvided,
    ReviewerServiceProvided,
}

#[derive(Clone, Copy, Debug, PartialEq, Eq, Structural)]
pub enum MilestoneState {
    Pending,
    Submitted,
    Approved,
    Rejected,
    Paid,
}

#[derive(Clone, Copy, Debug, PartialEq, Eq, Structural)]
pub enum GrantStatus {
    Active,
    Cancelled,
    Completed,
}

#[derive(Clone, Copy, Debug, PartialEq, Eq, Structural)]
pub enum EscrowMode {
    Standard,
    HighSecurity,
}

#[derive(Clone, Copy, Debug, PartialEq, Eq, Structural)]
pub enum EscrowLifecycleState {
    Funding,
    AwaitingMultisig,
    Released,
}

#[derive(Clone, Copy, Debug, PartialEq, Eq)]
pub struct EscrowState {
    pub mode: EscrowMode,
    pub lifecycle: EscrowLifecycleState,
    pub quorum_ready: bool,
    pub approvals_count: u32,
}

#[derive(Clone, Copy, Debug, PartialEq, Eq, Structural)]
pub enum AuditAction {
    GrantCreated,
    GrantFunded,
    MilestoneSubmitted,
    MilestoneApproved,
    MilestoneRejected,
    MilestonePaid,
    DisputeRaised,
    DisputeResolved,
    GrantCancelled,
    GrantCompleted,
    AdminChanged,
    ContractPaused,
    ContractUnpaused,
}

#[derive(Clone, Copy, Debug, PartialEq, Eq, Structural)]
pub enum StreamStatus {
    Active,
    Cancelled,
    Completed,
    Paused,
}

#[derive(Clone, Copy, Debug, PartialEq, Eq, Structural)]
pub enum VotingMechanism {
    SimpleMajority,
    Quadratic,
    Weighted,
}

#[derive(Clone, Copy, Debug, PartialEq, Eq, Structural)]
pub enum InsuranceClaimStatus {
    Submitted,
    UnderReview,
    Approved,
    Rejected,
    Paid,
}

#[derive(Clone, Copy, Debug, PartialEq, Eq, Structural)]
pub enum HookEvent {
    GrantCreated,
    MilestoneApproved,
    MilestonePaid,
    DisputeRaised,
    DisputeResolved,
    ContributorRegistered,
    BountyAwarded,
}

#[derive(Clone, Copy, Debug, PartialEq, Eq)]
pub struct HookCallResult {
    pub hook_index: u32,
    pub success: bool,
    pub error_code: Option<u32>,
}

#[derive(Clone, Copy, Debug, PartialEq, Eq, Structural)]
pub enum DisputeStatus {
    Open,
    UnderReview,
    ResolvedForContributor,
    ResolvedForFunder,
    Cancelled,
}

#[derive(Clone, Copy, Debug, PartialEq, Eq, Structural)]
pub enum ReputationTier {
    Unranked,
    Bronze,
    Silver,
    Gold,
    Platinum,
}

#[derive(Clone, Copy, Debug, PartialEq, Eq)]
pub struct ProtocolConfig {
    pub quorum_threshold_bps: u32,
    pub max_reviewers: u32,
    pub min_stake_amount: i128,
    pub protocol_fee_bps: u32,
    pub max_milestones_per_grant: u32,
    pub dispute_window_ledgers: u32,
    pub max_grant_title_len: u32,
    pub max_grant_desc_len: u32,
    
    pub multisig_threshold: i128,
    
    pub rate_limit_multiplier: u32,
    
    pub referral_fee_bps: u32,
    
    pub decay_config: DecayConfig,
    
    pub reviewer_reward_pool_bps: u32,
    
    pub fast_bonus_bps: u32,
}

#[derive(Clone, Copy, Debug, PartialEq, Eq, Structural)]
pub enum SignatureStatus {
    Pending,
    Signed,
    Rejected,
}

#[derive(Clone, Copy, Debug, PartialEq, Eq)]
pub struct ProtocolMetrics {
    pub total_grants_created: u32,
    pub total_grants_active: u32,
    pub total_grants_completed: u32,
    pub total_grants_cancelled: u32,
    pub total_milestones_approved: u32,
    pub total_milestones_rejected: u32,
    pub total_milestones_paid: u32,
    pub total_contributors_registered: u32,
    pub total_disputes_raised: u32,
    pub total_disputes_resolved: u32,
    pub total_bounties_created: u32,
    pub total_bounties_awarded: u32,
    pub last_updated: u64,
}

#[derive(Clone, Copy, Debug, PartialEq, Eq, Structural)]
pub enum ComplianceStatus {
    Unverified,
    Pending,
    Approved,
    Rejected,
    Expired,
}

#[derive(Clone, Copy, Debug, PartialEq, Eq, Structural)]
pub enum ComplianceLevel {
    NotRequired,
    Basic,
    Standard,
    Enhanced,
}

#[derive(Clone, Copy, Debug, PartialEq, Eq, Structural)]
pub enum RelayableAction {
    ContributorRegister,
    MilestoneSubmit,
    ClaimVested,
    WithdrawStream,
}

#[derive(Clone, Copy, Debug, PartialEq, Eq, Structural)]
pub enum ReviewerAvailability {
    Available,
    Busy,
    OnLeave,
    Inactive,
}

#[derive(Clone, Copy, Debug, PartialEq, Eq, Structural)]
pub enum ReviewerRequestStatus {
    Pending,
    Accepted,
    Declined,
    Expired,
}

#[derive(Clone, Copy, Debug, PartialEq, Eq, Structural)]
pub enum RenewalStatus {
    Proposed,
    ReviewerApproved,
    Active,
    Declined,
    Expired,
}

#[derive(Clone, Copy, Debug, PartialEq, Eq, Structural)]
pub enum CriterionStatus {
    Pending,
    CheckedByContributor,
    ApprovedByReviewer,
    RejectedByReviewer,
}

#[derive(Clone, Copy, Debug, PartialEq, Eq, Structural)]
pub enum ScoringDimension {
    DeliverySpeed,
    ApprovalRate,
    ReputationScore,
    TotalEarned,
    DisputeRate,
    ReviewerSatisfaction,
}

#[derive(Clone, Copy, Debug, PartialEq, Eq)]
pub struct ScoringWeight {
    pub dimension: ScoringDimension,
    pub weight_bps: u32,
    pub invert: bool,
}

#[derive(Clone, Copy, Debug, PartialEq, Eq, Structural)]
pub enum ProtocolModule {
    Grants,
    Streaming,
    Bounty,
    Dao,
    Staking,
    Vesting,
    YieldEscrow,
    MatchingPool,
    Crowdfund,
    Insurance,
    Relay,
    TokenSwap,
    Oracle,
}

#[derive(Clone, Copy, Debug, PartialEq, Eq, Structural)]
pub enum DelegationScope {
    Global,
    PerGrant(u64),
}

#[derive(Clone, Copy, Debug, PartialEq, Eq, Structural)]
pub enum BadgeType {
    FirstMilestone,
    TenMilestones,
    FiftyMilestones,
    BronzeContributor,
    SilverContributor,
    GoldContributor,
    PlatinumContributor,
    DisputeWinner,
    PerfectGrant,
    BountyChampion,
    EarlyAdopter,
}

#[derive(Clone, Copy, Debug, PartialEq, Eq)]
pub struct BadgeCriteria {
    pub badge_type: BadgeType,
    pub required_milestones: Option<u32>,
    pub required_reputation: Option<u32>,
    pub required_grants: Option<u32>,
    pub one_time: bool,
}

#[derive(Clone, Copy, Debug, PartialEq, Eq, Structural)]
pub enum RefundPolicyType {
    FullRefund,
    ProportionalToRemaining,
    TimeWeighted,
    PenaltyOnCancel,
    NoRefund,
}

#[derive(Clone, Copy, Debug, PartialEq, Eq)]
pub struct RefundPolicy {
    pub grant_id: u64,
    pub policy_type: RefundPolicyType,
    pub penalty_bps: u32,
    pub grace_period_ledgers: u32,
    pub min_refund_pct_bps: u32,
}

#[derive(Clone, Copy, Debug, PartialEq, Eq)]
pub struct RefundCalculation {
    pub gross_escrow: i128,
    pub funder_refund: i128,
    pub contributor_compensation: i128,
    pub penalty_amount: i128,
    pub policy_applied: RefundPolicyType,
}

#[derive(Clone, Copy, Debug, PartialEq, Eq, Structural)]
pub enum SnapshotTrigger {
    DisputeRaised,
    AdminRequest,
    MilestoneSubmission,
    PreUpgrade,
}

#[derive(Clone, Copy, Debug, PartialEq, Eq, Structural)]
pub enum GrantArchetype {
    ResearchGrant,
    DevelopmentBounty,
    CommunityProject,
    ProtocolIntegration,
    CustomTemplate,
}

#[derive(Clone, Copy, Debug, PartialEq, Eq)]
pub struct GrantTemplate {
    pub archetype: GrantArchetype,
    pub num_milestones: u32,
    pub review_window_ledgers: u32,
    pub min_reviewers: u32,
    pub quorum_threshold_bps: u32,
    pub voting_mechanism: VotingMechanism,
    pub requires_staking: bool,
    pub multisig_required: bool,
    pub sequential_milestones: bool,
    pub insurance_opt_in: bool,
}

#[derive(Clone, Copy, Debug, PartialEq, Eq, Structural)]
pub enum RateLimitAction {
    GrantCreate,
    MilestoneSubmit,
    ContributorRegister,
    DisputeRaise,
    BountyCreate,
}

#[derive(Clone, Copy, Debug, PartialEq, Eq, Structural)]
pub enum InvoiceStatus {
    Draft,
    Submitted,
    Approved,
    Rejected,
    Paid,
}

#[derive(Clone, Copy, Debug, PartialEq, Eq)]
pub struct CategoryStats {
    pub category_id: u32,
    pub total_grants: u32,
    pub completed_grants: u32,
    pub total_funded: i128,
    pub avg_completion_ledgers: u32,
    pub success_rate_bps: u32,
}

#[derive(Clone, Copy, Debug, PartialEq, Eq)]
pub struct AnalyticsSnapshot {
    pub avg_milestone_completion_ledgers: u32,
    pub avg_reviewer_turnaround_ledgers: u32,
    pub overall_success_rate_bps: u32,
    pub top_category_id: Option<u32>,
    pub tvl_7day_growth_bps: i32,
    pub snapshot_at: u64,
}

#[derive(Clone, Copy, Debug, PartialEq, Eq, Structural)]
pub enum ParamType {
    U32,
    I128,
    Bool,
    Address,
    StringValue,
}

#[derive(Clone, Copy, Debug, PartialEq, Eq, Structural)]
pub enum Role {
    SuperAdmin,
    ProtocolAdmin,
    TreasuryManager,
    ComplianceOfficer,
    DisputeArbiter,
    OracleOperator,
    ReviewerModerator,
    EmergencyPauser,
    Relayer,
}

#[derive(Clone, Copy, Debug, PartialEq, Eq, Structural)]
pub enum LicenseType {
    OpenSource,
    Proprietary,
    CreativeCommons,
    Custom,
}

#[derive(Clone, Copy, Debug, PartialEq, Eq)]
pub struct IpRights {
    pub commercial_use: bool,
    pub modification: bool,
    pub distribution: bool,
    pub sublicense: bool,
}

#[derive(Clone, Copy, Debug, PartialEq, Eq, Structural)]
pub enum SyndicateStatus {
    Forming,
    Active,
    Closed,
}

#[derive(Clone, Copy, Debug, PartialEq, Eq, Structural)]
pub enum AmendmentStatus {
    Proposed,
    Approved,
    Rejected,
    Withdrawn,
}

#[derive(Clone, Copy, Debug, PartialEq, Eq, Structural)]
pub enum TransferableRole {
    Owner,
    Reviewer,
}

#[derive(Clone, Copy, Debug, PartialEq, Eq, Structural)]
pub enum EvidenceFieldType {
    Url,
    Text,
    Number,
    Percentage,
}

#[derive(Clone, Copy, Debug, PartialEq, Eq, Structural)]
pub enum PublicReviewSignal {
    Positive,
    Neutral,
    Negative,
}

#[derive(Clone, Copy, Debug, PartialEq, Eq, Structural)]
pub enum NotificationEvent {
    NewGrant,
    MilestoneSubmitted,
    MilestoneApproved,
    MilestoneRejected,
    DisputeRaised,
    GrantCompleted,
    BountyPosted,
    ReviewerRequested,
}

#[derive(Clone, Copy, Debug, PartialEq, Eq, Structural)]
pub enum DecayType {
    NoDecay,
    Linear,
    Exponential,
}

#[derive(Clone, Copy, Debug, PartialEq, Eq)]
pub struct DecayConfig {
    pub enabled: bool,
    pub decay_type: DecayType,
    pub half_life_ledgers: u32,
    pub linear_decay_per_day: u32,
    pub decay_floor: u32,
    pub inactivity_threshold_ledgers: u32,
}

#[derive(Clone, Copy, Debug, PartialEq, Eq)]
pub struct MatchingAllocation {
    pub grant_id: u64,
    pub direct_contributions: i128,
    pub match_amount: i128,
    pub unique_contributors: u32,
    pub qf_score: i128,
}

#[derive(Clone, Copy, Debug, PartialEq, Eq)]
pub struct BatchResult {
    pub successful: u32,
    pub failed: u32,
    pub total: u32,
}

#[derive(Clone, Copy, Debug, PartialEq, Eq, Structural)]
pub enum CrowdfundStatus {
    Active,
    Succeeded,
    Failed,
    Cancelled,
}

#[derive(Clone, Copy, Debug, PartialEq, Eq, Structural)]
pub enum ExtensionStatus {
    Pending,
    Approved,
    Denied,
    Withdrawn,
}

#[derive(Clone, Copy, Debug, PartialEq, Eq, Structural)]
pub enum BondStatus {
    Pending,  
    Active,   
    Released, 
    Claimed,  
    Expired,
}

#[derive(Clone, Copy, Debug, PartialEq, Eq, Structural)]
pub enum CollateralStatus {
    Required,
    Deposited,
    Released,
    Forfeited,
    PartiallyForfeited,
}

#[derive(Clone, Copy, Debug, PartialEq, Eq, Structural)]
pub enum WhitelistMode {
    Open,
    Restricted,
}

#[derive(Clone, Copy, Debug, PartialEq, Eq, Structural)]
pub enum WhitelistScope {
    GlobalReviewer,
    GlobalContributor,
    GrantReviewer(u64),
}

/// A registered contributor and the delivery record from which its reputation is scored.
#[derive(Clone, Debug)]
pub struct ContributorProfile {
    pub contributor: AccountId,
    pub name: String,
    pub bio: String,
    pub skills: Vec<String>,
    pub github_url: String,
    pub registration_timestamp: u64,
    pub reputation_score: u64,
    pub grants_count: u32,
    pub total_earned: i128,
    pub milestones_completed: u32,
    pub milestones_rejected: u32,
    pub last_action_at: u64,
}

/// A continuous payment: `rate_per_ledger` accrues to the recipient each ledger from
/// `start_ledger` to `end_ledger`, out of `deposited`.
#[derive(Clone, Copy, Debug, PartialEq, Eq, Structural)]
pub struct PaymentStream {
    pub id: u32,
    pub grant_id: u64,
    pub sender: AccountId,
    pub recipient: AccountId,
    pub token: AccountId,
    pub rate_per_ledger: i128,
    pub deposited: i128,
    pub withdrawn: i128,
    pub start_ledger: u32,
    pub end_ledger: u32,
    pub status: StreamStatus,
    pub created_at: u64,
    pub paused_at_ledger: u32,
}

} // verus!
