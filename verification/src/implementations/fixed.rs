//! The calculator on the 256-bit integers of `fixed_bigint`, with 16-bit
//! words.
//!
//! Numbers cross to `fixed_bigint` and back as little-endian bytes, read by
//! `FixedUInt::from_le_bytes` and written by `FixedUInt::to_le_bytes`.

use crate::capped::min_nat;
use crate::radix::BASIS_POINTS_PER_UNIT;
use crate::stake::{warmup_cooldown_rate_bps, Epoch, StakeCalculator};
use crate::wide::{lemma_factors_fit, wide_limit, Wide256};
use ::fixed_bigint::num_traits::ToPrimitive;
use ::fixed_bigint::FixedUInt;
use core::ops::{DivAssign, MulAssign};
use vstd::prelude::*;

verus! {

/// `fixed_bigint::FixedUInt::<u16, 16>::from(u64)`: the 256-bit integer with
/// the value of `x`, handed out as its little-endian bytes.
#[verifier::external_body]
fn u64_to_u256(x: u64) -> (r: Wide256)
    ensures
        r@ == x,
{
    let v = FixedUInt::<u16, 16>::from(x);
    let mut bytes = [0u8; 32];
    let _ = v.to_le_bytes(&mut bytes);
    Wide256 { bytes }
}

/// `MulAssign<&FixedUInt<u16, 16>>::mul_assign`, which panics when the
/// product needs more than 256 bits: on products below `2^256` it leaves the
/// product in `x`.
#[verifier::external_body]
fn u256_mul_assign(x: &mut Wide256, y: &Wide256)
    requires
        old(x)@ * y@ < wide_limit(),
    ensures
        final(x)@ == old(x)@ * y@,
{
    let mut v = FixedUInt::<u16, 16>::from_le_bytes(&x.bytes);
    let rhs = FixedUInt::<u16, 16>::from_le_bytes(&y.bytes);
    v.mul_assign(&rhs);
    let _ = v.to_le_bytes(&mut x.bytes);
}

/// `DivAssign<&FixedUInt<u16, 16>>::div_assign`, which panics on a zero
/// divisor: on any other it leaves the quotient, rounded down, in `x`.
#[verifier::external_body]
fn u256_div_assign(x: &mut Wide256, y: &Wide256)
    requires
        y@ > 0,
    ensures
        final(x)@ == old(x)@ / y@,
{
    let mut v = FixedUInt::<u16, 16>::from_le_bytes(&x.bytes);
    let rhs = FixedUInt::<u16, 16>::from_le_bytes(&y.bytes);
    v.div_assign(&rhs);
    let _ = v.to_le_bytes(&mut x.bytes);
}

/// `ToPrimitive::to_u64` of `FixedUInt<u16, 16>`, which adds up the four
/// lowest words and looks at no other: it always returns the low 64 bits.
#[verifier::external_body]
fn u256_to_u64(x: &Wide256) -> (r: Option<u64>)
    ensures
        r == Some((x@ % 0x1_0000_0000_0000_0000) as u64),
{
    let v = FixedUInt::<u16, 16>::from_le_bytes(&x.bytes);
    v.to_u64()
}

/// Narrows a 256-bit number to 64 bits: the number itself where it fits, and
/// `u64::MAX` where it does not.
pub fn u256_floor_to_u64(x: &Wide256) -> (r: u64)
    ensures
        r == min_nat(x@, u64::MAX as nat),
{
    if !x.fits_u64() {
        return u64::MAX;
    }
    match u256_to_u64(x) {
        Some(v) => v,
        None => u64::MAX,
    }
}

/// 256-bit arithmetic of `fixed_bigint`.
pub struct FixedCalculator;

impl StakeCalculator for FixedCalculator {
    fn rate_limited_stake_change(
        epoch: Epoch,
        account_portion: u64,
        cluster_portion: u64,
        cluster_effective: u64,
        new_rate_activation_epoch: Option<Epoch>,
    ) -> (delta: u64) {
        if account_portion == 0 || cluster_portion == 0 || cluster_effective == 0 {
            return 0;
        }
        let rate_bps: u64 = warmup_cooldown_rate_bps(epoch, new_rate_activation_epoch);

        let mut num = u64_to_u256(account_portion);
        let ce = u64_to_u256(cluster_effective);
        let r = u64_to_u256(rate_bps);

        proof {
            lemma_factors_fit(account_portion, cluster_effective, rate_bps);
            lemma_factors_fit(cluster_portion, BASIS_POINTS_PER_UNIT, 1);
        }
        u256_mul_assign(&mut num, &ce);
        u256_mul_assign(&mut num, &r);

        let mut den = u64_to_u256(cluster_portion);
        let tenk = u64_to_u256(BASIS_POINTS_PER_UNIT);
        u256_mul_assign(&mut den, &tenk);
        assert(den@ == cluster_portion * 10_000 && den@ > 0) by (nonlinear_arith)
            requires
                den@ == cluster_portion * 10_000,
                cluster_portion > 0,
        ;

        u256_div_assign(&mut num, &den);

        let delta: u64 = u256_floor_to_u64(&num);
        if delta > account_portion {
            account_portion
        } else {
            delta
        }
    }
}

} // verus!
