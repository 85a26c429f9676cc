//! The calculator on the 256-bit integers of `crypto_bigint`.
//!
//! Numbers cross to `crypto_bigint` and back as little-endian bytes, read by
//! `U256::from_le_slice` and written by `U256::to_le_bytes`.

use crate::capped::min_nat;
use crate::radix::BASIS_POINTS_PER_UNIT;
use crate::stake::{warmup_cooldown_rate_bps, Epoch, StakeCalculator};
use crate::wide::{lemma_factors_fit, wide_limit, Wide256};
use ::crypto_bigint::U256;
use vstd::prelude::*;

verus! {

/// `crypto_bigint::U256::from(u64)`: the 256-bit integer with the value of
/// `x`, handed out as its little-endian bytes.
#[verifier::external_body]
fn u64_to_u256(x: u64) -> (r: Wide256)
    ensures
        r@ == x,
{
    Wide256 { bytes: U256::from(x).to_le_bytes() }
}

/// `crypto_bigint::U256 * crypto_bigint::U256`, which is a checked
/// multiplication that panics when the product needs more than 256 bits: on
/// products below `2^256` it returns the product.
#[verifier::external_body]
fn u256_mul(x: &Wide256, y: &Wide256) -> (r: Wide256)
    requires
        x@ * y@ < wide_limit(),
    ensures
        r@ == x@ * y@,
{
    let lhs = U256::from_le_slice(&x.bytes);
    let rhs = U256::from_le_slice(&y.bytes);
    Wide256 { bytes: (lhs * rhs).to_le_bytes() }
}

/// `crypto_bigint::U256 / crypto_bigint::U256`, which panics on a zero
/// divisor: on any other it returns the quotient rounded down.
#[verifier::external_body]
fn u256_div(x: &Wide256, y: &Wide256) -> (r: Wide256)
    requires
        y@ > 0,
    ensures
        r@ == x@ / y@,
{
    let lhs = U256::from_le_slice(&x.bytes);
    let rhs = U256::from_le_slice(&y.bytes);
    Wide256 { bytes: (lhs / rhs).to_le_bytes() }
}

/// Narrows a 256-bit number to 64 bits: the number itself where it fits, and
/// `u64::MAX` where it does not.
pub fn u256_floor_to_u64(x: &Wide256) -> (r: u64)
    ensures
        r == min_nat(x@, u64::MAX as nat),
{
    if x.fits_u64() {
        x.low_u64()
    } else {
        u64::MAX
    }
}

/// 256-bit arithmetic of `crypto_bigint`.
pub struct CryptoCalculator;

impl StakeCalculator for CryptoCalculator {
    fn rate_limited_stake_change(
        epoch: Epoch,
        account_portion: u64,
        cluster_portion: u64,
        cluster_effective: u64,
        new_rate_activation_epoch: Option<Epoch>,
    ) -> (delta: u64) {
        if account_portion == 0 || cluster_portion == 0 || cluster_effective == 0 {
            return 0;
        }
        let rate_bps: u64 = warmup_cooldown_rate_bps(epoch, new_rate_activation_epoch);

        let a = u64_to_u256(account_portion);
        let ce = u64_to_u256(cluster_effective);
        let r = u64_to_u256(rate_bps);
        let cp = u64_to_u256(cluster_portion);
        let tenk = u64_to_u256(BASIS_POINTS_PER_UNIT);

        proof {
            lemma_factors_fit(account_portion, cluster_effective, rate_bps);
            lemma_factors_fit(cluster_portion, BASIS_POINTS_PER_UNIT, 1);
        }
        let num = u256_mul(&u256_mul(&a, &ce), &r);
        let den = u256_mul(&cp, &tenk);
        assert(den@ == cluster_portion * 10_000 && den@ > 0) by (nonlinear_arith)
            requires
                den@ == cluster_portion * 10_000,
                cluster_portion > 0,
        ;
        let q = u256_div(&num, &den);

        let delta: u64 = u256_floor_to_u64(&q);
        if delta > account_portion {
            account_portion
        } else {
            delta
        }
    }
}

} // verus!
