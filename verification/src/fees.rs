use vstd::prelude::*;

use std::collections::HashMap;

use crate::arith::{clamp_i128, div_trunc, sat_add_i128};
use crate::constants::CONTRACT_ACCOUNT;
use crate::contract::StellarGrantsContract;
use crate::errors::ContractError;
use crate::grants::GrantBook;
use crate::keys::Transfer;
use crate::referral::ReferralBook;
use crate::types::AccountId;

verus! {

broadcast use vstd::std_specs::hash::group_hash_axioms;

/// `amount * bps / 10_000` as the protocol computes it, when the product fits in `i128`.
pub open spec fn spec_bps_of(amount: int, bps: int) -> int {
    div_trunc(amount * bps, 10_000)
}

/// The protocol fee owed on `gross` at `fee_bps`: nothing for a zero rate or a
/// non-positive amount, otherwise `gross * fee_bps / 10_000` rounded down.
pub open spec fn spec_fee(gross: int, fee_bps: int) -> int {
    if fee_bps == 0 || gross <= 0 { 0 } else { (gross * fee_bps) / 10_000 }
}

/// `amount * bps / 10_000`, refused with `InvalidInput` when the product overflows.
pub fn basis_points_of(amount: i128, bps: u32) -> (r: Result<i128, ContractError>)
    ensures
        match r {
            Ok(v) => i128::MIN <= amount * bps <= i128::MAX && v == spec_bps_of(amount as int, bps as int),
            Err(e) => e == ContractError::InvalidInput && !(i128::MIN <= amount * bps <= i128::MAX),
        },
{
    match amount.checked_mul(bps as i128) {
        Some(p) => match p.checked_div(10_000) {
            Some(q) => Ok(q),
            None => Err(ContractError::InvalidInput),
        },
        None => Err(ContractError::InvalidInput),
    }
}

/// The fee on `gross` at `fee_bps`; `InvalidInput` when `gross * fee_bps` overflows.
pub fn compute_fee(gross: i128, fee_bps: u32) -> (r: Result<i128, ContractError>)
    ensures
        (fee_bps == 0 || gross <= 0 || gross * fee_bps <= i128::MAX) ==> r == Ok::<i128, ContractError>(spec_fee(gross as int, fee_bps as int) as i128),
        !(fee_bps == 0 || gross <= 0 || gross * fee_bps <= i128::MAX) ==> r == Err::<i128, ContractError>(ContractError::InvalidInput),
{
    if fee_bps == 0 || gross <= 0 {
        return Ok(0);
    }
    assert(gross * fee_bps > 0) by (nonlinear_arith)
        requires gross > 0, fee_bps > 0;
    basis_points_of(gross, fee_bps)
}

/// The protocol fees collected in each token.
pub struct FeeBook {
    collected: HashMap<AccountId, i128>,
}

impl FeeBook {
    /// The fees collected in `token`.
    pub closed spec fn collected(&self, token: AccountId) -> i128 {
        if self.collected@.contains_key(token) {
            self.collected@[token]
        } else {
            0
        }
    }

    pub fn new() -> (b: FeeBook)
        ensures
            forall|t: AccountId| #[trigger] b.collected(t) == 0,
    {
        FeeBook { collected: HashMap::new() }
    }

    /// The fees collected in `token`.
    pub fn total_fees_collected(&self, token: AccountId) -> (r: i128)
        ensures
            r == self.collected(token),
    {
        match self.collected.get(&token) {
            Some(v) => *v,
            None => 0,
        }
    }

    /// Record `amount` more collected in `token` (saturating).
    pub fn add_fees_collected(&mut self, token: AccountId, amount: i128)
        ensures
            forall|t: AccountId| #[trigger] final(self).collected(t) == if t == token {
                clamp_i128(old(self).collected(token) + amount) as i128
            } else {
                old(self).collected(t)
            },
    {
        let current = self.total_fees_collected(token);
        self.collected.insert(token, sat_add_i128(current, amount));
    }
}

/// Take the protocol fee out of a payout of `gross`: the fee goes to the treasury, is
/// recorded, and a share of it goes to the referrer of the grant's owner, if any. Returns
/// what is left for the payee.
pub fn deduct_and_transfer(
    fees: &mut FeeBook,
    referrals: &mut ReferralBook,
    grants: &GrantBook,
    gross: i128,
    token: AccountId,
    treasury: AccountId,
    grant_id: u64,
    milestone_idx: u32,
    fee_bps: u32,
    referral_fee_bps: u32,
    now: u64,
    transfers: &mut Vec<Transfer>,
) -> (r: Result<i128, ContractError>)
    ensures
        ({
            let fits = fee_bps == 0 || gross <= 0 || gross * fee_bps <= i128::MAX;
            let fee = spec_fee(gross as int, fee_bps as int);
            let owner = grants.views()[grant_id].owner;
            &&& !fits ==> r == Err::<i128, ContractError>(ContractError::InvalidInput)
            &&& fits && fee <= 0 ==> r == Ok::<i128, ContractError>(gross)
            &&& !(fits && fee > 0) ==> final(transfers)@ == old(transfers)@
                && (forall|t: AccountId| #[trigger] final(fees).collected(t) == old(fees).collected(t))
                && *final(referrals) == *old(referrals)
            &&& fits && fee > 0 ==> {
                &&& final(transfers)@ == old(transfers)@.push(
                    Transfer { token, from: CONTRACT_ACCOUNT, to: treasury, amount: fee as i128 },
                )
                &&& forall|t: AccountId| #[trigger] final(fees).collected(t) == if t == token {
                    clamp_i128(old(fees).collected(token) + fee) as i128
                } else {
                    old(fees).collected(t)
                }
                &&& !grants.views().contains_key(grant_id) ==> r == Ok::<i128, ContractError>((gross - fee) as i128)
                    && *final(referrals) == *old(referrals)
                &&& grants.views().contains_key(grant_id) ==> ReferralBook::spec_reward_triggered(
                    old(referrals),
                    final(referrals),
                    owner,
                    token,
                    fee as i128,
                    referral_fee_bps,
                    now,
                    if r is Ok {
                        Ok(())
                    } else {
                        Err(r->Err_0)
                    },
                ) && (r is Ok ==> r == Ok::<i128, ContractError>((gross - fee) as i128))
            }
        }),
{
    let fee = match compute_fee(gross, fee_bps) {
        Ok(f) => f,
        Err(e) => return Err(e),
    };
    if fee <= 0 {
        return Ok(gross);
    }
    transfers.push(Transfer { token, from: CONTRACT_ACCOUNT, to: treasury, amount: fee });
    fees.add_fees_collected(token, fee);
    match grants.get(grant_id) {
        Some(g) => {
            match referrals.trigger_reward(g.owner, token, fee, referral_fee_bps, now) {
                Ok(()) => {},
                Err(e) => return Err(e),
            }
        },
        None => {},
    }
    assert(fee >= 0) by (nonlinear_arith)
        requires
            gross > 0,
            fee_bps > 0,
            fee == (gross * fee_bps) / 10_000,
    ;
    Ok(gross - fee)
}

impl StellarGrantsContract {
    /// The global admin sets the treasury.
    pub fn set_treasury(&mut self, admin: AccountId, treasury: AccountId) -> (r: Result<(), ContractError>)
        ensures
            old(self).global_admin != Some(admin) ==> r == Err::<(), ContractError>(ContractError::Unauthorized)
                && *final(self) == *old(self),
            old(self).global_admin == Some(admin) ==> r is Ok && final(self).treasury == Some(treasury)
                && final(self).grants == old(self).grants && final(self).escrow == old(self).escrow
                && final(self).reviewer_stakes == old(self).reviewer_stakes
                && final(self).global_admin == old(self).global_admin,
    {
        match self.global_admin {
            Some(a) => {
                if a != admin {
                    return Err(ContractError::Unauthorized);
                }
            },
            None => return Err(ContractError::Unauthorized),
        }
        self.treasury = Some(treasury);
        Ok(())
    }

    /// The treasury; `InvalidInput` when none is set.
    pub fn get_treasury(&self) -> (r: Result<AccountId, ContractError>)
        ensures
            r == match self.treasury {
                Some(t) => Ok::<AccountId, ContractError>(t),
                None => Err(ContractError::InvalidInput),
            },
    {
        match self.treasury {
            Some(t) => Ok(t),
            None => Err(ContractError::InvalidInput),
        }
    }
}

} // verus!
