use vstd::prelude::*;
use crate::types::MilestoneState;

verus! {

/// The payload of the event published when a milestone changes state.
#[derive(Clone, Copy, Debug, PartialEq, Eq, Structural)]
pub struct MilestoneStatusChanged {
    pub grant_id: u64,
    pub milestone_idx: u32,
    pub new_state: MilestoneState,
    pub timestamp: u64,
}

/// The payload of the event published when a community proposal is closed with its tally.
#[derive(Clone, Copy, Debug, PartialEq, Eq, Structural)]
pub struct DaoProposalFinalized {
    pub proposal_id: u64,
    pub passed: bool,
    pub votes_for: u64,
    pub votes_against: u64,
    pub timestamp: u64,
}

/// The payload of the event published when a rejected invoice is sent again.
#[derive(Clone, Copy, Debug, PartialEq, Eq, Structural)]
pub struct InvoiceResubmitted {
    pub grant_id: u64,
    pub milestone_idx: u32,
    pub total: i128,
    pub timestamp: u64,
}

/// The payload of the event published when a grant is completed and its escrow settled.
#[derive(Clone, Copy, Debug, PartialEq, Eq, Structural)]
pub struct GrantCompleted {
    pub grant_id: u64,
    pub total_paid: i128,
    pub remaining_balance: i128,
    pub timestamp: u64,
}

/// The payload of the event published when a milestone is paid out.
#[derive(Clone, Copy, Debug, PartialEq, Eq, Structural)]
pub struct MilestonePaid {
    pub grant_id: u64,
    pub milestone_idx: u32,
    pub amount: i128,
    pub timestamp: u64,
}

/// The payload of the event published when a dispute is decided.
#[derive(Clone, Copy, Debug, PartialEq, Eq, Structural)]
pub struct DisputeResolved {
    pub grant_id: u64,
    pub milestone_idx: u32,
    pub resolved_for_contributor: bool,
    pub timestamp: u64,
}

} // verus!
