use vstd::prelude::*;

verus! {

/// The single map key under which a pair of 64-bit identifiers is stored.
pub open spec fn spec_pair_key(a: u64, b: u64) -> u128 {
    (a as int * 0x1_0000_0000_0000_0000 + b as int) as u128
}

pub fn pair_key(a: u64, b: u64) -> (k: u128)
    ensures
        k == spec_pair_key(a, b),
{
    assert(a as int * 0x1_0000_0000_0000_0000 + b as int <= u128::MAX) by (nonlinear_arith)
        requires a <= u64::MAX, b <= u64::MAX;
    (a as u128) * 0x1_0000_0000_0000_0000 + (b as u128)
}

/// Distinct pairs are stored under distinct keys.
pub proof fn lemma_pair_key_injective(a1: u64, b1: u64, a2: u64, b2: u64)
    ensures
        spec_pair_key(a1, b1) == spec_pair_key(a2, b2) <==> (a1 == a2 && b1 == b2),
{
    assert(a1 as int * 0x1_0000_0000_0000_0000 + b1 as int <= u128::MAX) by (nonlinear_arith)
        requires a1 <= u64::MAX, b1 <= u64::MAX;
    assert(a2 as int * 0x1_0000_0000_0000_0000 + b2 as int <= u128::MAX) by (nonlinear_arith)
        requires a2 <= u64::MAX, b2 <= u64::MAX;
    if a1 as int * 0x1_0000_0000_0000_0000 + b1 as int == a2 as int * 0x1_0000_0000_0000_0000 + b2 as int {
        assert(a1 == a2 && b1 == b2) by (nonlinear_arith)
            requires
                a1 as int * 0x1_0000_0000_0000_0000 + b1 as int == a2 as int * 0x1_0000_0000_0000_0000 + b2 as int,
                b1 <= u64::MAX, b2 <= u64::MAX, a1 >= 0, a2 >= 0, b1 >= 0, b2 >= 0;
    }
}

/// A movement of `amount` units of `token` from `from` to `to` that the contract
/// instructs the token contract to carry out.
#[derive(Clone, Copy, Debug, PartialEq, Eq, Structural)]
pub struct Transfer {
    pub token: u64,
    pub from: u64,
    pub to: u64,
    pub amount: i128,
}

} // verus!
