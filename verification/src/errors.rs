use vstd::prelude::*;

verus! {

/// Every way in which a request to the grants protocol can be refused.
#[derive(Clone, Copy, Debug, PartialEq, Eq, Structural)]
pub enum ContractError {
    InvalidInput,
    Unauthorized,
    InvalidState,
    GrantNotFound,
    ZeroAmount,
    MilestoneNotFound,
    AlreadyVoted,
    StreamNotFound,
    DagCycleDetected,
    StreamNotActive,
    NoRefundableAmount,
    NotAllMilestonesApproved,
    MilestoneIndexOutOfBounds,
    InvoiceNotFound,
    ComplianceCheckFailed,
    ClaimNotFound,
    BondNotFound,
    BatchTooLarge,
    BatchEmpty,
    ArbitrationCaseNotFound,
    AlreadyRegistered,
    ReferralCodeNotFound,
    QuorumNotReached,
    PolicyNotFound,
    PolicyExpired,
    MilestoneNotSubmitted,
    InsufficientArbiters,
    HookNotFound,
    HookLimitExceeded,
    GrantAlreadyReleased,
    ExtensionRequestNotFound,
    ExtensionAlreadyResolved,
    ComplianceNotVerified,
    ClaimAlreadyResolved,
    CaseNotFinalized,
    CaseAlreadyFinalized,
    BondNotActive,
    ArbiterNotFound,
    VotingDeadlinePassed,
    VerifierNotSet,
    ReviewerLimitExceeded,
    ReferralCodeInactive,
    ReferralCodeExpired,
    ReferralCodeExhausted,
    PolicyInactive,
    NotVerifier,
    NotPanelMember,
    NotMultisigSigner,
    NoRewardsToClaim,
    InvoiceAlreadySubmitted,
    InsufficientPoolBalance,
    HookAlreadyInactive,
    EscrowNotFound,
    EscrowLocked,
    EscrowAlreadyOpen,
    DependencyNotSatisfied,
    DeadlinePassed,
    DagAlreadyAttached,
    BondExpired,
    BondAlreadyPosted,
    ArbiterInActiveCase,
    ArbiterAlreadyJoined,
    AlreadySignedRelease,
    AlreadyReferred,
    MilestoneAlreadySubmitted,
    InsufficientStake,
    StakeNotFound,
}

impl ContractError {
    /// The numeric code under which the error is reported (declaration order, from 1).
    pub open spec fn spec_code(self) -> u32 {
        match self {
            ContractError::InvalidInput => 1,
            ContractError::Unauthorized => 2,
            ContractError::InvalidState => 3,
            ContractError::GrantNotFound => 4,
            ContractError::ZeroAmount => 5,
            ContractError::MilestoneNotFound => 6,
            ContractError::AlreadyVoted => 7,
            ContractError::StreamNotFound => 8,
            ContractError::DagCycleDetected => 9,
            ContractError::StreamNotActive => 10,
            ContractError::NoRefundableAmount => 11,
            ContractError::NotAllMilestonesApproved => 12,
            ContractError::MilestoneIndexOutOfBounds => 13,
            ContractError::InvoiceNotFound => 14,
            ContractError::ComplianceCheckFailed => 15,
            ContractError::ClaimNotFound => 16,
            ContractError::BondNotFound => 17,
            ContractError::BatchTooLarge => 18,
            ContractError::BatchEmpty => 19,
            ContractError::ArbitrationCaseNotFound => 20,
            ContractError::AlreadyRegistered => 21,
            ContractError::ReferralCodeNotFound => 22,
            ContractError::QuorumNotReached => 23,
            ContractError::PolicyNotFound => 24,
            ContractError::PolicyExpired => 25,
            ContractError::MilestoneNotSubmitted => 26,
            ContractError::InsufficientArbiters => 27,
            ContractError::HookNotFound => 28,
            ContractError::HookLimitExceeded => 29,
            ContractError::GrantAlreadyReleased => 30,
            ContractError::ExtensionRequestNotFound => 31,
            ContractError::ExtensionAlreadyResolved => 32,
            ContractError::ComplianceNotVerified => 33,
            ContractError::ClaimAlreadyResolved => 34,
            ContractError::CaseNotFinalized => 35,
            ContractError::CaseAlreadyFinalized => 36,
            ContractError::BondNotActive => 37,
            ContractError::ArbiterNotFound => 38,
            ContractError::VotingDeadlinePassed => 39,
            ContractError::VerifierNotSet => 40,
            ContractError::ReviewerLimitExceeded => 41,
            ContractError::ReferralCodeInactive => 42,
            ContractError::ReferralCodeExpired => 43,
            ContractError::ReferralCodeExhausted => 44,
            ContractError::PolicyInactive => 45,
            ContractError::NotVerifier => 46,
            ContractError::NotPanelMember => 47,
            ContractError::NotMultisigSigner => 48,
            ContractError::NoRewardsToClaim => 49,
            ContractError::InvoiceAlreadySubmitted => 50,
            ContractError::InsufficientPoolBalance => 51,
            ContractError::HookAlreadyInactive => 52,
            ContractError::EscrowNotFound => 53,
            ContractError::EscrowLocked => 54,
            ContractError::EscrowAlreadyOpen => 55,
            ContractError::DependencyNotSatisfied => 56,
            ContractError::DeadlinePassed => 57,
            ContractError::DagAlreadyAttached => 58,
            ContractError::BondExpired => 59,
            ContractError::BondAlreadyPosted => 60,
            ContractError::ArbiterInActiveCase => 61,
            ContractError::ArbiterAlreadyJoined => 62,
            ContractError::AlreadySignedRelease => 63,
            ContractError::AlreadyReferred => 64,
            ContractError::MilestoneAlreadySubmitted => 65,
            ContractError::InsufficientStake => 66,
            ContractError::StakeNotFound => 67,
        }
    }

    pub fn code(&self) -> (r: u32)
        ensures
            r == self.spec_code(),
    {
        match self {
            ContractError::InvalidInput => 1,
            ContractError::Unauthorized => 2,
            ContractError::InvalidState => 3,
            ContractError::GrantNotFound => 4,
            ContractError::ZeroAmount => 5,
            ContractError::MilestoneNotFound => 6,
            ContractError::AlreadyVoted => 7,
            ContractError::StreamNotFound => 8,
            ContractError::DagCycleDetected => 9,
            ContractError::StreamNotActive => 10,
            ContractError::NoRefundableAmount => 11,
            ContractError::NotAllMilestonesApproved => 12,
            ContractError::MilestoneIndexOutOfBounds => 13,
            ContractError::InvoiceNotFound => 14,
            ContractError::ComplianceCheckFailed => 15,
            ContractError::ClaimNotFound => 16,
            ContractError::BondNotFound => 17,
            ContractError::BatchTooLarge => 18,
            ContractError::BatchEmpty => 19,
            ContractError::ArbitrationCaseNotFound => 20,
            ContractError::AlreadyRegistered => 21,
            ContractError::ReferralCodeNotFound => 22,
            ContractError::QuorumNotReached => 23,
            ContractError::PolicyNotFound => 24,
            ContractError::PolicyExpired => 25,
            ContractError::MilestoneNotSubmitted => 26,
            ContractError::InsufficientArbiters => 27,
            ContractError::HookNotFound => 28,
            ContractError::HookLimitExceeded => 29,
            ContractError::GrantAlreadyReleased => 30,
            ContractError::ExtensionRequestNotFound => 31,
            ContractError::ExtensionAlreadyResolved => 32,
            ContractError::ComplianceNotVerified => 33,
            ContractError::ClaimAlreadyResolved => 34,
            ContractError::CaseNotFinalized => 35,
            ContractError::CaseAlreadyFinalized => 36,
            ContractError::BondNotActive => 37,
            ContractError::ArbiterNotFound => 38,
            ContractError::VotingDeadlinePassed => 39,
            ContractError::VerifierNotSet => 40,
            ContractError::ReviewerLimitExceeded => 41,
            ContractError::ReferralCodeInactive => 42,
            ContractError::ReferralCodeExpired => 43,
            ContractError::ReferralCodeExhausted => 44,
            ContractError::PolicyInactive => 45,
            ContractError::NotVerifier => 46,
            ContractError::NotPanelMember => 47,
            ContractError::NotMultisigSigner => 48,
            ContractError::NoRewardsToClaim => 49,
            ContractError::InvoiceAlreadySubmitted => 50,
            ContractError::InsufficientPoolBalance => 51,
            ContractError::HookAlreadyInactive => 52,
            ContractError::EscrowNotFound => 53,
            ContractError::EscrowLocked => 54,
            ContractError::EscrowAlreadyOpen => 55,
            ContractError::DependencyNotSatisfied => 56,
            ContractError::DeadlinePassed => 57,
            ContractError::DagAlreadyAttached => 58,
            ContractError::BondExpired => 59,
            ContractError::BondAlreadyPosted => 60,
            ContractError::ArbiterInActiveCase => 61,
            ContractError::ArbiterAlreadyJoined => 62,
            ContractError::AlreadySignedRelease => 63,
            ContractError::AlreadyReferred => 64,
            ContractError::MilestoneAlreadySubmitted => 65,
            ContractError::InsufficientStake => 66,
            ContractError::StakeNotFound => 67,
        }
    }
}

} // verus!
