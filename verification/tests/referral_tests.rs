use stellar_grants::constants::CONTRACT_ACCOUNT;
use stellar_grants::errors::ContractError;
use stellar_grants::digest::code_hash_from_digest;
use stellar_grants::referral::{referral_code_hash, referral_plaintext, to_be_bytes, CodeHash, ReferralBook};

const REFERRER: u64 = 10;
const NEWCOMER: u64 = 11;
const TOKEN: u64 = 200;
const H: CodeHash = CodeHash { hi: 0xabc, lo: 0x123 };

#[test]
fn plaintext_is_big_endian() {
    assert_eq!(to_be_bytes(0x0102_0304_0506_0708), vec![1, 2, 3, 4, 5, 6, 7, 8]);
    let p = referral_plaintext(1, 0x100, 2);
    assert_eq!(p.len(), 24);
    assert_eq!(p[7], 1);
    assert_eq!((p[14], p[15]), (1, 0));
    assert_eq!(p[23], 2);
}

#[test]
fn code_creation_rules() {
    let mut b = ReferralBook::new();
    assert_eq!(b.create_code_with_hash(REFERRER, false, None, None, H, 5), Err(ContractError::Unauthorized));
    assert_eq!(b.create_code_with_hash(REFERRER, true, Some(5), None, H, 5), Err(ContractError::InvalidInput));
    assert_eq!(b.create_code_with_hash(REFERRER, true, None, Some(0), H, 5), Err(ContractError::InvalidInput));
    assert_eq!(b.create_code_with_hash(REFERRER, true, Some(6), Some(1), H, 5), Ok(H));
}

#[test]
fn applying_a_code_records_the_referral() {
    let mut b = ReferralBook::new();
    b.create_code_with_hash(REFERRER, true, Some(100), Some(1), H, 5).unwrap();
    assert_eq!(b.apply_code(NEWCOMER, CodeHash { hi: 0, lo: 0 }, 6), Err(ContractError::ReferralCodeNotFound));
    assert_eq!(b.apply_code(REFERRER, H, 6), Err(ContractError::InvalidInput));
    b.apply_code(NEWCOMER, H, 6).unwrap();
    let rec = b.get_record(NEWCOMER).unwrap();
    assert_eq!((rec.referrer, rec.referred_at, rec.reward_paid, rec.first_action_at), (REFERRER, 6, false, None));
    assert_eq!(b.apply_code(12, H, 7), Err(ContractError::ReferralCodeExhausted));
}

#[test]
fn expired_and_inactive_codes() {
    let mut b = ReferralBook::new();
    b.create_code_with_hash(REFERRER, true, Some(100), None, H, 5).unwrap();
    assert_eq!(b.apply_code(NEWCOMER, H, 101), Err(ContractError::ReferralCodeExpired));
    assert_eq!(b.deactivate_code(NEWCOMER, H, None), Err(ContractError::Unauthorized));
    b.deactivate_code(REFERRER, H, None).unwrap();
    assert_eq!(b.apply_code(NEWCOMER, H, 50), Err(ContractError::ReferralCodeInactive));
    assert_eq!(b.deactivate_code(REFERRER, CodeHash { hi: 1, lo: 1 }, None), Err(ContractError::ReferralCodeNotFound));
}

#[test]
fn first_action_pays_the_referrer_once() {
    let mut b = ReferralBook::new();
    let mut t = Vec::new();
    b.create_code_with_hash(REFERRER, true, None, None, H, 5).unwrap();
    b.apply_code(NEWCOMER, H, 6).unwrap();
    assert_eq!(b.apply_code(NEWCOMER, H, 7), Err(ContractError::AlreadyReferred));
    // 2.5% of 1,000 is 25.
    b.trigger_reward(NEWCOMER, TOKEN, 1_000, 250, 8).unwrap();
    assert_eq!(b.pending_rewards(REFERRER, TOKEN), 25);
    let rec = b.get_record(NEWCOMER).unwrap();
    assert_eq!((rec.reward_paid, rec.first_action_at), (true, Some(8)));
    b.trigger_reward(NEWCOMER, TOKEN, 1_000, 250, 9).unwrap();
    assert_eq!(b.pending_rewards(REFERRER, TOKEN), 25);
    // nothing happens for an account nobody referred.
    b.trigger_reward(99, TOKEN, 1_000, 250, 9).unwrap();
    assert_eq!(b.claim_rewards(REFERRER, TOKEN, &mut t), Ok(25));
    assert_eq!((t[0].from, t[0].to, t[0].amount, t[0].token), (CONTRACT_ACCOUNT, REFERRER, 25, TOKEN));
    assert_eq!(b.pending_rewards(REFERRER, TOKEN), 0);
    assert_eq!(b.claim_rewards(REFERRER, TOKEN, &mut t), Err(ContractError::NoRewardsToClaim));
    assert_eq!(t.len(), 1);
}

#[test]
fn digest_halves_are_big_endian() {
    // SHA-256 of "abc".
    let d: Vec<u8> = vec![
        0xba, 0x78, 0x16, 0xbf, 0x8f, 0x01, 0xcf, 0xea, 0x41, 0x41, 0x40, 0xde, 0x5d, 0xae, 0x22, 0x23, 0xb0, 0x03, 0x61,
        0xa3, 0x96, 0x17, 0x7a, 0x9c, 0xb4, 0x10, 0xff, 0x61, 0xf2, 0x00, 0x15, 0xad,
    ];
    assert_eq!(
        code_hash_from_digest(&d),
        CodeHash { hi: 0xba7816bf8f01cfea414140de5dae2223, lo: 0xb00361a396177a9cb410ff61f20015ad }
    );
}

#[test]
fn created_code_is_the_hash_of_its_plaintext() {
    let env = soroban_sdk::Env::default();
    let plain = referral_plaintext(7, 1_000, 42);
    let digest = env.crypto().sha256(&soroban_sdk::Bytes::from_slice(&env, &plain)).to_array().to_vec();
    let expected = code_hash_from_digest(&digest);
    assert_eq!(referral_code_hash(&env, 7, 1_000, 42), expected);
    // Not the plaintext itself, and another salt gives another code.
    let mut padded = plain.clone();
    padded.extend_from_slice(&[0u8; 8]);
    assert_ne!(expected, code_hash_from_digest(&padded));
    assert_ne!(referral_code_hash(&env, 8, 1_000, 42), expected);
    let mut b = ReferralBook::new();
    assert_eq!(b.create_code(&env, REFERRER, true, None, Some(3), 7, 1_000, 42), Ok(expected));
    assert_eq!(b.create_code(&env, REFERRER, false, None, None, 7, 1_000, 42), Err(ContractError::Unauthorized));
    b.apply_code(NEWCOMER, expected, 1_001).unwrap();
}
