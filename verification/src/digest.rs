use vstd::prelude::*;

use crate::referral::CodeHash;

verus! {

/// The host environment, through which the ledger's hash function is reached.
#[verifier::external_type_specification]
#[verifier::external_body]
pub struct ExEnv(soroban_sdk::Env);

/// The SHA-256 digest of a byte string.
pub uninterp spec fn sha256_of(bytes: Seq<u8>) -> Seq<u8>;

/// Hashes `plain` with the host's `Crypto::sha256` (soroban-sdk), which returns the 32-byte
/// SHA-256 digest of its input. The contract claims that the result is that digest, as a
/// function of the bytes alone, and that it has 32 bytes.
#[verifier::external_body]
pub(crate) fn sha256_bytes(env: &soroban_sdk::Env, plain: &Vec<u8>) -> (r: Vec<u8>)
    ensures
        r@ == sha256_of(plain@),
        r@.len() == 32,
{
    let data = soroban_sdk::Bytes::from_slice(env, plain.as_slice());
    env.crypto().sha256(&data).to_array().to_vec()
}

/// The number that a byte string spells out in base 256, most significant byte first.
pub open spec fn be_value(s: Seq<u8>) -> nat
    decreases s.len(),
{
    if s.len() == 0 {
        0
    } else {
        be_value(s.drop_last()) * 256 + s.last() as nat
    }
}

/// `256` to the power `n`.
pub open spec fn pow256(n: nat) -> nat
    decreases n,
{
    if n == 0 {
        1
    } else {
        256 * pow256((n - 1) as nat)
    }
}

/// A 32-byte digest read as two big-endian halves.
pub open spec fn spec_code_hash(d: Seq<u8>) -> CodeHash {
    CodeHash { hi: be_value(d.subrange(0, 16)) as u128, lo: be_value(d.subrange(16, 32)) as u128 }
}

proof fn lemma_pow256_mono(a: nat, b: nat)
    requires
        a <= b,
    ensures
        pow256(a) <= pow256(b),
    decreases b,
{
    if a < b {
        lemma_pow256_mono(a, (b - 1) as nat);
    }
}

/// The big-endian value of the 16 bytes of `d` from `start`.
fn be_u128(d: &Vec<u8>, start: usize) -> (r: u128)
    requires
        start + 16 <= d@.len(),
    ensures
        r == be_value(d@.subrange(start as int, start + 16)),
{
    let len = d.len();
    let mut acc: u128 = 0;
    let mut k: usize = 0;
    proof {
        assert(d@.subrange(start as int, start as int) =~= Seq::<u8>::empty());
        reveal_with_fuel(pow256, 17);
        assert(pow256(16) == 0x1_0000_0000_0000_0000_0000_0000_0000_0000nat);
    }
    while k < 16
        invariant
            k <= 16,
            start + 16 <= len,
            len == d@.len(),
            acc == be_value(d@.subrange(start as int, start + k)),
            acc < pow256(k as nat),
            pow256(16) == 0x1_0000_0000_0000_0000_0000_0000_0000_0000nat,
        decreases 16 - k,
    {
        let b = d[start + k];
        let ghost p = pow256(k as nat);
        proof {
            assert(acc * 256 + b < p * 256) by (nonlinear_arith)
                requires
                    acc < p,
                    b < 256,
            ;
            lemma_pow256_mono((k + 1) as nat, 16);
            assert(d@.subrange(start as int, start + k + 1).drop_last() =~= d@.subrange(start as int, start + k));
        }
        acc = acc * 256 + b as u128;
        k += 1;
    }
    acc
}

/// Read a 32-byte digest as a code hash: its first and last 16 bytes, big-endian.
pub fn code_hash_from_digest(d: &Vec<u8>) -> (r: CodeHash)
    requires
        d@.len() == 32,
    ensures
        r == spec_code_hash(d@),
{
    let hi = be_u128(d, 0);
    let lo = be_u128(d, 16);
    CodeHash { hi, lo }
}

} // verus!
