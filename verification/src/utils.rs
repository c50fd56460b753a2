//! Bit-extraction helpers: how a 64-bit hash value is turned into a register
//! index (bucket) and a run-length value.

use vstd::prelude::*;
use vstd::arithmetic::power2::{pow2, lemma_pow2_pos, lemma2_to64};
use vstd::bits::{
    low_bits_mask, lemma_u64_low_bits_mask_is_mod, lemma_u64_shl_is_mul,
    lemma_u64_pow2_no_overflow, lemma_u32_shl_is_mul, lemma_u32_pow2_no_overflow,
};
use vstd::std_specs::bits::{u64_trailing_zeros, axiom_u64_trailing_zeros};

verus! {

/// The bucket a hash falls into: the unsigned value of the low `p` bits.
pub open spec fn spec_bucket(p: u8, hash: u64) -> nat {
    hash as nat % pow2(p as nat)
}

/// The run length recorded for a hash: one more than the number of
/// consecutive zero bits starting at bit `p`. Zero is thereby reserved to
/// mean "register never updated".
pub open spec fn spec_run(p: u8, hash: u64) -> u8 {
    (u64_trailing_zeros(hash >> (p as u64)) + 1) as u8
}

/// `2^p` as a `u32`. The precisions the estimator supports stay far below
/// the width of the result type.
pub fn pow_two(p: u8) -> (r: u32)
    requires
        p < 32,
    ensures
        r == pow2(p as nat),
{
    proof {
        lemma_u32_pow2_no_overflow(p as nat);
        lemma_u32_shl_is_mul(1u32, p as u32);
    }
    1u32 << (p as u32)
}

/// Register index for `hash`: its low `precision` bits, so an integer in
/// `[0, 2^precision)`. A precision of zero selects no bits, and every hash
/// maps to bucket zero.
pub fn get_bucket(precision: u8, hash: u64) -> (r: usize)
    requires
        precision <= 63,
        pow2(precision as nat) <= usize::MAX,
    ensures
        r == spec_bucket(precision, hash),
        r < pow2(precision as nat),
{
    proof {
        lemma_pow2_pos(precision as nat);
    }
    if precision == 0 {
        proof {
            lemma2_to64();
        }
        0
    } else {
        proof {
            lemma_u64_pow2_no_overflow(precision as nat);
            lemma_u64_shl_is_mul(1u64, precision as u64);
            lemma_u64_low_bits_mask_is_mod(hash, precision as nat);
        }
        let mask: u64 = (1u64 << (precision as u64)) - 1;
        (hash & mask) as usize
    }
}

/// Run length for `hash`: trailing zeros of `hash >> percision`, plus one.
/// The result lies in `[1, 65]`, so it always fits a register byte.
pub fn longest_run(percision: u8, hash: u64) -> (r: u8)
    requires
        percision <= 63,
    ensures
        r == spec_run(percision, hash),
        1 <= r <= 65,
{
    let shifted: u64 = hash >> (percision as u64);
    proof {
        axiom_u64_trailing_zeros(shifted);
    }
    shifted.trailing_zeros() as u8 + 1
}

} // verus!
