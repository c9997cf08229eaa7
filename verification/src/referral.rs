use vstd::prelude::*;
use std::collections::HashMap;

use crate::arith::div_trunc;
use crate::constants::{BASIS_POINTS_SCALE, CONTRACT_ACCOUNT};
use crate::digest::{code_hash_from_digest, sha256_bytes, sha256_of, spec_code_hash};
use crate::errors::ContractError;
use crate::keys::{lemma_pair_key_injective, pair_key, spec_pair_key, Transfer};
use crate::types::AccountId;

verus! {

broadcast use vstd::std_specs::hash::group_hash_axioms;

/// A SHA-256 digest, as its first and last 16 bytes read big-endian.
#[derive(Clone, Copy, Debug, PartialEq, Eq, Structural)]
pub struct CodeHash {
    pub hi: u128,
    pub lo: u128,
}

/// A referral code, known by the hash of its plaintext.
#[derive(Clone, Copy, Debug, PartialEq, Eq, Structural)]
pub struct ReferralCode {
    pub code_hash: CodeHash,
    pub referrer: AccountId,
    pub created_at: u64,
    pub expires_at: Option<u64>,
    pub max_uses: Option<u32>,
    pub uses: u32,
    pub is_active: bool,
}

/// Who referred an account, with which code.
#[derive(Clone, Copy, Debug, PartialEq, Eq, Structural)]
pub struct ReferralRecord {
    pub referred: AccountId,
    pub referrer: AccountId,
    pub code_hash: CodeHash,
    pub referred_at: u64,
    pub first_action_at: Option<u64>,
    pub reward_paid: bool,
}

/// The big-endian bytes of `x`.
pub open spec fn be_bytes(x: u64) -> Seq<u8> {
    Seq::new(8, |i: int| ((x as int / vstd::arithmetic::power2::pow2((8 * (7 - i)) as nat) as int) % 256) as u8)
}

/// The big-endian bytes of a 64-bit number.
pub fn to_be_bytes(x: u64) -> (r: Vec<u8>)
    ensures
        r@ == be_bytes(x),
{
    let mut out: Vec<u8> = Vec::new();
    let mut k: usize = 0;
    while k < 8
        invariant
            k <= 8,
            out@ == be_bytes(x).take(k as int),
        decreases 8 - k,
    {
        let shift: u64 = (8 * (7 - k)) as u64;
        let b = ((x >> shift) & 0xff) as u8;
        proof {
            vstd::bits::lemma_u64_shr_is_div(x, shift);
            assert(b == ((x as int / vstd::arithmetic::power2::pow2(shift as nat) as int) % 256) as u8) by {
                assert((x >> shift) & 0xff == (x >> shift) % 256) by (bit_vector);
            }
            assert(be_bytes(x).take(k + 1) == be_bytes(x).take(k as int).push(b));
        }
        out.push(b);
        k += 1;
    }
    proof {
        assert(be_bytes(x).take(8) == be_bytes(x));
    }
    out
}

/// The plaintext from which a referral code is hashed: a random salt, the time and the
/// ledger sequence, each as eight big-endian bytes.
pub fn referral_plaintext(salt: u64, now: u64, sequence: u32) -> (r: Vec<u8>)
    ensures
        r@ == be_bytes(salt) + be_bytes(now) + be_bytes(sequence as u64),
{
    let mut plain = to_be_bytes(salt);
    let mut b = to_be_bytes(now);
    plain.append(&mut b);
    let mut c = to_be_bytes(sequence as u64);
    plain.append(&mut c);
    plain
}

/// The code hash of a referral code made from `salt` at `now` and ledger `sequence`.
pub open spec fn spec_referral_code_hash(salt: u64, now: u64, sequence: u32) -> CodeHash {
    spec_code_hash(sha256_of(be_bytes(salt) + be_bytes(now) + be_bytes(sequence as u64)))
}

/// The code hash of a referral code made from `salt` at `now` and ledger `sequence`: the
/// SHA-256 of its plaintext, read as two big-endian halves.
pub fn referral_code_hash(env: &soroban_sdk::Env, salt: u64, now: u64, sequence: u32) -> (r: CodeHash)
    ensures
        r == spec_referral_code_hash(salt, now, sequence),
{
    let plain = referral_plaintext(salt, now, sequence);
    let digest = sha256_bytes(env, &plain);
    code_hash_from_digest(&digest)
}

/// Referral codes, referral records by referred account, and pending referral rewards by
/// (referrer, token).
pub struct ReferralBook {
    codes: Vec<ReferralCode>,
    records: HashMap<u64, ReferralRecord>,
    rewards: HashMap<u128, i128>,
}

/// The first code in `codes` with hash `h`, if any.
pub open spec fn spec_code_in(codes: Seq<ReferralCode>, h: CodeHash) -> Option<ReferralCode>
    decreases codes.len(),
{
    if codes.len() == 0 {
        None
    } else {
        let prev = spec_code_in(codes.drop_last(), h);
        if prev is Some { prev } else if codes.last().code_hash == h { Some(codes.last()) } else { None }
    }
}

impl ReferralBook {
    pub closed spec fn code_list(&self) -> Seq<ReferralCode> {
        self.codes@
    }

    /// The code with hash `h`.
    pub open spec fn code(&self, h: CodeHash) -> Option<ReferralCode> {
        spec_code_in(self.code_list(), h)
    }

    pub closed spec fn record(&self, referred: AccountId) -> Option<ReferralRecord> {
        if self.records@.contains_key(referred) { Some(self.records@[referred]) } else { None }
    }

    /// A referrer's unclaimed rewards in a token.
    pub closed spec fn reward(&self, referrer: AccountId, token: AccountId) -> i128 {
        let k = spec_pair_key(referrer, token);
        if self.rewards@.contains_key(k) { self.rewards@[k] } else { 0 }
    }

    pub fn new() -> (b: ReferralBook)
        ensures
            forall|h: CodeHash| #[trigger] b.code(h) is None,
            forall|a: AccountId| #[trigger] b.record(a) is None,
            forall|r: AccountId, t: AccountId| #[trigger] b.reward(r, t) == 0,
    {
        ReferralBook { codes: Vec::new(), records: HashMap::new(), rewards: HashMap::new() }
    }

    fn find_code(&self, h: CodeHash) -> (r: usize)
        ensures
            r <= self.code_list().len(),
            r < self.code_list().len() ==> self.code(h) == Some(self.code_list()[r as int]) && self.code_list()[r as int].code_hash
                == h,
            r < self.code_list().len() ==> forall|j: int| 0 <= j < r ==> self.code_list()[j].code_hash != h,
            r == self.code_list().len() ==> self.code(h) is None,
    {
        let mut i: usize = 0;
        while i < self.codes.len()
            invariant
                i <= self.codes@.len(),
                forall|j: int| 0 <= j < i ==> self.codes@[j].code_hash != h,
            decreases self.codes@.len() - i,
        {
            if self.codes[i].code_hash == h {
                proof {
                    lemma_code_first(self.codes@, h, i as int);
                }
                return i;
            }
            i += 1;
        }
        proof {
            lemma_code_none(self.codes@, h);
        }
        i
    }

    /// A registered contributor or assessor creates a referral code; it may expire and may
    /// be limited in uses. The code is known by the SHA-256 of a plaintext made of `salt`
    /// (drawn at random by the caller), the time and the ledger sequence; it is returned.
    pub fn create_code(
        &mut self,
        env: &soroban_sdk::Env,
        referrer: AccountId,
        registered: bool,
        expires_at: Option<u64>,
        max_uses: Option<u32>,
        salt: u64,
        now: u64,
        sequence: u32,
    ) -> (r: Result<CodeHash, ContractError>)
        ensures
            forall|a: AccountId| #[trigger] final(self).record(a) == old(self).record(a),
            forall|rr: AccountId, t: AccountId| #[trigger] final(self).reward(rr, t) == old(self).reward(rr, t),
            !registered ==> r == Err::<CodeHash, ContractError>(ContractError::Unauthorized),
            registered && (expires_at matches Some(e) && e <= now) ==> r == Err::<CodeHash, ContractError>(
                ContractError::InvalidInput),
            registered && !(expires_at matches Some(e) && e <= now) && max_uses == Some(0u32) ==> r == Err::<
                CodeHash,
                ContractError,
            >(ContractError::InvalidInput),
            r is Ok <==> registered && !(expires_at matches Some(e) && e <= now) && max_uses != Some(0u32),
            r is Err ==> forall|h: CodeHash| #[trigger] final(self).code(h) == old(self).code(h),
            r is Ok ==> ({
                let code_hash = spec_referral_code_hash(salt, now, sequence);
                &&& r == Ok::<CodeHash, ContractError>(code_hash)
                &&& forall|h: CodeHash| #[trigger] final(self).code(h) == if h == code_hash {
                    Some(
                        ReferralCode { code_hash, referrer, created_at: now, expires_at, max_uses, uses: 0, is_active: true },
                    )
                } else {
                    old(self).code(h)
                }
            }),
    {
        let code_hash = referral_code_hash(env, salt, now, sequence);
        self.create_code_with_hash(referrer, registered, expires_at, max_uses, code_hash, now)
    }

    /// Create a referral code known by `code_hash`, under the same rules as `create_code`.
    pub fn create_code_with_hash(
        &mut self,
        referrer: AccountId,
        registered: bool,
        expires_at: Option<u64>,
        max_uses: Option<u32>,
        code_hash: CodeHash,
        now: u64,
    ) -> (r: Result<CodeHash, ContractError>)
        ensures
            forall|a: AccountId| #[trigger] final(self).record(a) == old(self).record(a),
            forall|rr: AccountId, t: AccountId| #[trigger] final(self).reward(rr, t) == old(self).reward(rr, t),
            !registered ==> r == Err::<CodeHash, ContractError>(ContractError::Unauthorized),
            registered && (expires_at matches Some(e) && e <= now) ==> r == Err::<CodeHash, ContractError>(
                ContractError::InvalidInput),
            registered && !(expires_at matches Some(e) && e <= now) && max_uses == Some(0u32) ==> r == Err::<
                CodeHash,
                ContractError,
            >(ContractError::InvalidInput),
            r is Ok <==> registered && !(expires_at matches Some(e) && e <= now) && max_uses != Some(0u32),
            r is Err ==> forall|h: CodeHash| #[trigger] final(self).code(h) == old(self).code(h),
            r is Ok ==> r == Ok::<CodeHash, ContractError>(code_hash) && forall|h: CodeHash| #[trigger] final(self).code(h)
                == if h == code_hash {
                Some(ReferralCode { code_hash, referrer, created_at: now, expires_at, max_uses, uses: 0, is_active: true })
            } else {
                old(self).code(h)
            },
    {
        if !registered {
            return Err(ContractError::Unauthorized);
        }
        match expires_at {
            Some(exp) => {
                if exp <= now {
                    return Err(ContractError::InvalidInput);
                }
            },
            None => {},
        }
        match max_uses {
            Some(mu) => {
                if mu == 0 {
                    return Err(ContractError::InvalidInput);
                }
            },
            None => {},
        }
        let code = ReferralCode { code_hash, referrer, created_at: now, expires_at, max_uses, uses: 0, is_active: true };
        self.set_code(code);
        Ok(code_hash)
    }

    /// Store a code, replacing the one with the same hash.
    fn set_code(&mut self, code: ReferralCode)
        ensures
            forall|a: AccountId| #[trigger] final(self).record(a) == old(self).record(a),
            forall|rr: AccountId, t: AccountId| #[trigger] final(self).reward(rr, t) == old(self).reward(rr, t),
            forall|h: CodeHash| #[trigger] final(self).code(h) == if h == code.code_hash { Some(code) } else { old(self).code(h) },
    {
        let i = self.find_code(code.code_hash);
        let ghost c0 = self.codes@;
        if i < self.codes.len() {
            self.codes.set(i, code);
            proof {
                assert forall|h: CodeHash| #[trigger] spec_code_in(self.codes@, h) == if h == code.code_hash {
                    Some(code)
                } else {
                    spec_code_in(c0, h)
                } by {
                    lemma_code_update(c0, i as int, code, h);
                }
            }
        } else {
            self.codes.push(code);
            proof {
                assert(self.codes@.drop_last() == c0);
            }
        }
    }

    /// A new account applies a referral code: the code must be active, unexpired, not used
    /// up, not its own, and the account not referred yet.
    pub fn apply_code(&mut self, referred: AccountId, code_hash: CodeHash, now: u64) -> (r: Result<(), ContractError>)
        ensures
            forall|rr: AccountId, t: AccountId| #[trigger] final(self).reward(rr, t) == old(self).reward(rr, t),
            ({
                let c = old(self).code(code_hash);
                let code = c->0;
                let expired = code.expires_at matches Some(e) && now > e;
                let exhausted = code.max_uses matches Some(m) && code.uses >= m;
                &&& c is None ==> r == Err::<(), ContractError>(ContractError::ReferralCodeNotFound)
                &&& c is Some && !code.is_active ==> r == Err::<(), ContractError>(ContractError::ReferralCodeInactive)
                &&& c is Some && code.is_active && expired ==> r == Err::<(), ContractError>(ContractError::ReferralCodeExpired)
                &&& c is Some && code.is_active && !expired && exhausted ==> r == Err::<(), ContractError>(
                    ContractError::ReferralCodeExhausted)
                &&& c is Some && code.is_active && !expired && !exhausted && code.referrer == referred ==> r == Err::<
                    (),
                    ContractError,
                >(ContractError::InvalidInput)
                &&& c is Some && code.is_active && !expired && !exhausted && code.referrer != referred && old(self).record(
                    referred,
                ) is Some ==> r == Err::<(), ContractError>(ContractError::AlreadyReferred)
                &&& r is Ok <==> c is Some && code.is_active && !expired && !exhausted && code.referrer != referred && old(
                    self,
                ).record(referred) is None
                &&& r is Err ==> (forall|h: CodeHash| #[trigger] final(self).code(h) == old(self).code(h)) && (forall|a: AccountId|
                    #[trigger] final(self).record(a) == old(self).record(a))
                &&& r is Ok ==> (forall|h: CodeHash| #[trigger] final(self).code(h) == if h == code_hash {
                    Some(ReferralCode { uses: crate::arith::clamp_u32(code.uses + 1) as u32, ..code })
                } else {
                    old(self).code(h)
                }) && (forall|a: AccountId| #[trigger] final(self).record(a) == if a == referred {
                    Some(ReferralRecord {
                        referred,
                        referrer: code.referrer,
                        code_hash,
                        referred_at: now,
                        first_action_at: None,
                        reward_paid: false,
                    })
                } else {
                    old(self).record(a)
                })
            }),
    {
        let i = self.find_code(code_hash);
        if i >= self.codes.len() {
            return Err(ContractError::ReferralCodeNotFound);
        }
        let code = self.codes[i];
        if !code.is_active {
            return Err(ContractError::ReferralCodeInactive);
        }
        match code.expires_at {
            Some(exp) => {
                if now > exp {
                    return Err(ContractError::ReferralCodeExpired);
                }
            },
            None => {},
        }
        match code.max_uses {
            Some(mu) => {
                if code.uses >= mu {
                    return Err(ContractError::ReferralCodeExhausted);
                }
            },
            None => {},
        }
        if code.referrer == referred {
            return Err(ContractError::InvalidInput);
        }
        if self.records.contains_key(&referred) {
            return Err(ContractError::AlreadyReferred);
        }
        proof {
            assert(code == old(self).code(code_hash)->0);
        }
        self.set_code(ReferralCode { uses: code.uses.saturating_add(1), ..code });
        let ghost mid = *self;
        self.records.insert(
            referred,
            ReferralRecord { referred, referrer: code.referrer, code_hash, referred_at: now, first_action_at: None, reward_paid: false },
        );
        proof {
            assert forall|rr: AccountId, t: AccountId| #[trigger] self.reward(rr, t) == old(self).reward(rr, t) by {
                assert(mid.reward(rr, t) == self.reward(rr, t));
            }
            assert forall|h: CodeHash| #[trigger] self.code(h) == mid.code(h) by {
                assert(self.code_list() == mid.code_list());
            }
            assert forall|a: AccountId| #[trigger] self.record(a) == if a == referred {
                Some(ReferralRecord { referred, referrer: code.referrer, code_hash, referred_at: now, first_action_at: None, reward_paid: false })
            } else {
                old(self).record(a)
            } by {
                assert(mid.record(a) == old(self).record(a));
            }
        }
        Ok(())
    }

    /// The effect of paying the referrer of `referred` its share of `fee_amount` at `now`,
    /// with outcome `r`: once per referral, nothing without a record, refused on overflow.
    pub open spec fn spec_reward_triggered(
        before: &Self,
        after: &Self,
        referred: AccountId,
        token: AccountId,
        fee_amount: i128,
        referral_fee_bps: u32,
        now: u64,
        r: Result<(), ContractError>,
    ) -> bool {
        let rec = before.record(referred);
        let x = rec->0;
        let pays = fee_amount > 0 && referral_fee_bps > 0;
        let reward = if pays { div_trunc(fee_amount * referral_fee_bps, BASIS_POINTS_SCALE as int) } else { 0 };
        let fits_mul = !pays || fee_amount * referral_fee_bps <= i128::MAX;
        let fits_add = reward <= 0 || before.reward(x.referrer, token) + reward <= i128::MAX;
        &&& (rec is None || x.reward_paid) ==> r == Ok::<(), ContractError>(()) && (forall|a: AccountId| #[trigger] after.record(a) == before.record(a)) && (forall|rr: AccountId, t: AccountId| #[trigger] after.reward(
            rr,
            t,
        ) == before.reward(rr, t))
        &&& rec is Some && !x.reward_paid && !(fits_mul && fits_add) ==> r == Err::<(), ContractError>(
            ContractError::InvalidInput) && (forall|a: AccountId| #[trigger] after.record(a) == before.record(a))
            && (forall|rr: AccountId, t: AccountId| #[trigger] after.reward(rr, t) == before.reward(rr, t))
        &&& rec is Some && !x.reward_paid && fits_mul && fits_add ==> {
            &&& r == Ok::<(), ContractError>(())
            &&& forall|a: AccountId| #[trigger] after.record(a) == if a == referred {
                Some(ReferralRecord { first_action_at: Some(now), reward_paid: true, ..x })
            } else {
                before.record(a)
            }
            &&& forall|rr: AccountId, t: AccountId| #[trigger] after.reward(rr, t) == if reward > 0 && rr == x.referrer
                && t == token {
                (before.reward(rr, t) + reward) as i128
            } else {
                before.reward(rr, t)
            }
        }
    }

    /// Pay the referrer of `referred` its share (`referral_fee_bps` of `fee_amount`) of the
    /// first qualifying action's fee, once; nothing without a referral record.
    pub fn trigger_reward(&mut self, referred: AccountId, token: AccountId, fee_amount: i128, referral_fee_bps: u32, now: u64) -> (r:
        Result<(), ContractError>)
        ensures
            forall|h: CodeHash| #[trigger] final(self).code(h) == old(self).code(h),
            Self::spec_reward_triggered(old(self), final(self), referred, token, fee_amount, referral_fee_bps, now, r),
    {
        let record = match self.records.get(&referred) {
            Some(r) => *r,
            None => return Ok(()),
        };
        if record.reward_paid {
            return Ok(());
        }
        let reward: i128 = if fee_amount > 0 && referral_fee_bps > 0 {
            match fee_amount.checked_mul(referral_fee_bps as i128) {
                Some(p) => p / (BASIS_POINTS_SCALE as i128),
                None => return Err(ContractError::InvalidInput),
            }
        } else {
            0
        };
        let k = pair_key(record.referrer, token);
        let pending: i128 = match self.rewards.get(&k) {
            Some(p) => *p,
            None => 0,
        };
        let new_pending = if reward > 0 {
            match pending.checked_add(reward) {
                Some(p) => p,
                None => return Err(ContractError::InvalidInput),
            }
        } else {
            pending
        };
        self.records.insert(referred, ReferralRecord { first_action_at: Some(now), reward_paid: true, ..record });
        if reward > 0 {
            self.rewards.insert(k, new_pending);
            proof {
                assert forall|rr: AccountId, t: AccountId| #[trigger] self.reward(rr, t) == if rr == record.referrer && t == token {
                    new_pending
                } else {
                    old(self).reward(rr, t)
                } by {
                    lemma_pair_key_injective(rr, t, record.referrer, token);
                }
            }
        }
        Ok(())
    }

    /// A referrer claims all its pending rewards in a token.
    pub fn claim_rewards(&mut self, referrer: AccountId, token: AccountId, transfers: &mut Vec<Transfer>) -> (r: Result<
        i128,
        ContractError,
    >)
        ensures
            forall|h: CodeHash| #[trigger] final(self).code(h) == old(self).code(h),
            forall|a: AccountId| #[trigger] final(self).record(a) == old(self).record(a),
            ({
                let pending = old(self).reward(referrer, token);
                &&& pending <= 0 ==> r == Err::<i128, ContractError>(ContractError::NoRewardsToClaim) && (forall|rr: AccountId,
                    t: AccountId| #[trigger] final(self).reward(rr, t) == old(self).reward(rr, t)) && final(transfers)@ == old(
                    transfers)@
                &&& pending > 0 ==> r == Ok::<i128, ContractError>(pending) && (forall|rr: AccountId, t: AccountId| #[trigger] final(
                    self).reward(rr, t) == if rr == referrer && t == token { 0 } else { old(self).reward(rr, t) }) && final(
                    transfers)@ == old(transfers)@.push(Transfer { token, from: CONTRACT_ACCOUNT, to: referrer, amount: pending })
            }),
    {
        let k = pair_key(referrer, token);
        let pending: i128 = match self.rewards.get(&k) {
            Some(p) => *p,
            None => 0,
        };
        if pending <= 0 {
            return Err(ContractError::NoRewardsToClaim);
        }
        self.rewards.insert(k, 0);
        proof {
            assert forall|rr: AccountId, t: AccountId| #[trigger] self.reward(rr, t) == if rr == referrer && t == token {
                0
            } else {
                old(self).reward(rr, t)
            } by {
                lemma_pair_key_injective(rr, t, referrer, token);
            }
        }
        transfers.push(Transfer { token, from: CONTRACT_ACCOUNT, to: referrer, amount: pending });
        Ok(pending)
    }

    /// A referrer's unclaimed rewards in a token.
    pub fn pending_rewards(&self, referrer: AccountId, token: AccountId) -> (r: i128)
        ensures
            r == self.reward(referrer, token),
    {
        match self.rewards.get(&pair_key(referrer, token)) {
            Some(p) => *p,
            None => 0,
        }
    }

    /// The referral record of an account.
    pub fn get_record(&self, referred: AccountId) -> (r: Option<ReferralRecord>)
        ensures
            r == self.record(referred),
    {
        match self.records.get(&referred) {
            Some(r) => Some(*r),
            None => None,
        }
    }

    /// The creator of a code or the global admin deactivates it.
    pub fn deactivate_code(&mut self, caller: AccountId, code_hash: CodeHash, global_admin: Option<AccountId>) -> (r: Result<
        (),
        ContractError,
    >)
        ensures
            forall|a: AccountId| #[trigger] final(self).record(a) == old(self).record(a),
            forall|rr: AccountId, t: AccountId| #[trigger] final(self).reward(rr, t) == old(self).reward(rr, t),
            ({
                let c = old(self).code(code_hash);
                let code = c->0;
                &&& c is None ==> r == Err::<(), ContractError>(ContractError::ReferralCodeNotFound)
                &&& c is Some && code.referrer != caller && global_admin != Some(caller) ==> r == Err::<(), ContractError>(
                    ContractError::Unauthorized)
                &&& r is Ok <==> c is Some && (code.referrer == caller || global_admin == Some(caller))
                &&& r is Err ==> forall|h: CodeHash| #[trigger] final(self).code(h) == old(self).code(h)
                &&& r is Ok ==> forall|h: CodeHash| #[trigger] final(self).code(h) == if h == code_hash {
                    Some(ReferralCode { is_active: false, ..code })
                } else {
                    old(self).code(h)
                }
            }),
    {
        let i = self.find_code(code_hash);
        if i >= self.codes.len() {
            return Err(ContractError::ReferralCodeNotFound);
        }
        let code = self.codes[i];
        if code.referrer != caller && global_admin != Some(caller) {
            return Err(ContractError::Unauthorized);
        }
        self.set_code(ReferralCode { is_active: false, ..code });
        Ok(())
    }
}

proof fn lemma_code_none(codes: Seq<ReferralCode>, h: CodeHash)
    requires
        forall|j: int| 0 <= j < codes.len() ==> codes[j].code_hash != h,
    ensures
        spec_code_in(codes, h) is None,
    decreases codes.len(),
{
    if codes.len() > 0 {
        let d = codes.drop_last();
        assert forall|j: int| 0 <= j < d.len() implies d[j].code_hash != h by {
            assert(d[j] == codes[j]);
        }
        lemma_code_none(d, h);
        assert(codes.last().code_hash != h);
    }
}

proof fn lemma_code_first(codes: Seq<ReferralCode>, h: CodeHash, i: int)
    requires
        0 <= i < codes.len(),
        codes[i].code_hash == h,
        forall|j: int| 0 <= j < i ==> codes[j].code_hash != h,
    ensures
        spec_code_in(codes, h) == Some(codes[i]),
    decreases codes.len(),
{
    let d = codes.drop_last();
    if i == codes.len() - 1 {
        assert forall|j: int| 0 <= j < d.len() implies d[j].code_hash != h by {
            assert(d[j] == codes[j]);
        }
        lemma_code_none(d, h);
    } else {
        assert forall|j: int| 0 <= j < i implies d[j].code_hash != h by {
            assert(d[j] == codes[j]);
        }
        lemma_code_first(d, h, i);
    }
}

proof fn lemma_code_update(codes: Seq<ReferralCode>, i: int, c: ReferralCode, h: CodeHash)
    requires
        0 <= i < codes.len(),
        codes[i].code_hash == c.code_hash,
        forall|j: int| 0 <= j < i ==> codes[j].code_hash != c.code_hash,
    ensures
        spec_code_in(codes.update(i, c), h) == if h == c.code_hash { Some(c) } else { spec_code_in(codes, h) },
    decreases codes.len(),
{
    let n = codes.update(i, c);
    let d = codes.drop_last();
    if i == codes.len() - 1 {
        assert(n.drop_last() == d);
        if h == c.code_hash {
            assert forall|j: int| 0 <= j < d.len() implies d[j].code_hash != h by {
                assert(d[j] == codes[j]);
            }
            lemma_code_none(d, h);
        }
    } else {
        assert(n.drop_last() == d.update(i, c));
        assert forall|j: int| 0 <= j < i implies d[j].code_hash != c.code_hash by {
            assert(d[j] == codes[j]);
        }
        lemma_code_update(d, i, c, h);
        if h == c.code_hash {
            lemma_code_first(d, h, i);
        }
    }
}

} // verus!
