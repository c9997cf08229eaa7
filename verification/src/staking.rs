use vstd::prelude::*;

use crate::types::AccountId;

verus! {

/// Where a assessor's stake stands.
#[derive(Clone, Copy, Debug, PartialEq, Eq, Structural)]
pub enum StakeStatus {
    Active,
    Locked,
    Slashed,
    Withdrawn,
}

/// A assessor's stake.
#[derive(Clone, Copy, Debug, PartialEq, Eq, Structural)]
pub struct StakePosition {
    pub amount: i128,
    pub status: StakeStatus,
}

/// A slashing of a assessor's stake and its reason.
#[derive(Clone, Debug)]
pub struct SlashRecord {
    pub amount: i128,
    pub reason: String,
}

/// The assessor staking interface as the protocol currently offers it: staking and
/// unstaking only authenticate the assessor, and every assessor reads as holding an active,
/// empty stake that is always sufficient.
pub struct Staking;

impl Staking {
    /// Stake `amount` (the caller's authorisation is all that is checked).
    pub fn stake(_reviewer: AccountId, _amount: i128) {
    }

    /// Unstake `amount` (the caller's authorisation is all that is checked).
    pub fn unstake(_reviewer: AccountId, _amount: i128) {
    }

    /// Lock a assessor's stake.
    pub fn lock_stake(_reviewer: AccountId) {
    }

    /// Slash a assessor's stake.
    pub fn slash(_reviewer: AccountId, _amount: i128, _reason: String) {
    }

    /// Whether a assessor holds at least `required`: always.
    pub fn has_sufficient_stake(_reviewer: AccountId, _required: i128) -> (r: bool)
        ensures
            r,
    {
        true
    }

    /// A assessor's stake: active and empty.
    pub fn get_stake(_reviewer: AccountId) -> (r: StakePosition)
        ensures
            r == (StakePosition { amount: 0, status: StakeStatus::Active }),
    {
        StakePosition { amount: 0, status: StakeStatus::Active }
    }

    /// A assessor's slashing history: nothing slashed, reason "None".
    pub fn slash_history(_reviewer: AccountId) -> (r: SlashRecord)
        ensures
            r.amount == 0,
            r.reason@ == "None"@,
    {
        SlashRecord { amount: 0, reason: "None".to_owned() }
    }
}

} // verus!
