//! The calculator on the 256-bit integers of `bnum`, with 16-bit digits.
//!
//! Numbers cross to `bnum` and back as little-endian bytes: the bytes are the
//! digits of a `BUintD8<32>` (`from_digits`, `digits`), which `bnum` casts to
//! and from `BUintD16<16>` without changing the value.

use crate::capped::min_nat;
use crate::radix::BASIS_POINTS_PER_UNIT;
use crate::stake::{warmup_cooldown_rate_bps, Epoch, StakeCalculator};
use crate::wide::{lemma_factors_fit, wide_limit, Wide256};
use ::bnum::cast::As;
use ::bnum::{BUintD16, BUintD8};
use vstd::prelude::*;

verus! {

/// The error of `bnum` for a number that the target type cannot hold.
#[verifier::external_type_specification]
#[verifier::external_body]
pub struct ExTryFromIntError(::bnum::errors::TryFromIntError);

/// `bnum::BUintD16::<16>::from(u64)`: the 256-bit integer with the value of
/// `x`, handed out as its little-endian bytes.
#[verifier::external_body]
fn u64_to_u(x: u64) -> (r: Wide256)
    ensures
        r@ == x,
{
    let v = BUintD16::<16>::from(x);
    Wide256 { bytes: *v.as_::<BUintD8<32>>().digits() }
}

/// `bnum::BUintD16::<16> * bnum::BUintD16::<16>`, which panics or wraps when
/// the product needs more than 256 bits: on products below `2^256` it
/// returns the product.
#[verifier::external_body]
fn u_mul(x: &Wide256, y: &Wide256) -> (r: Wide256)
    requires
        x@ * y@ < wide_limit(),
    ensures
        r@ == x@ * y@,
{
    let lhs: BUintD16<16> = BUintD8::<32>::from_digits(x.bytes).as_();
    let rhs: BUintD16<16> = BUintD8::<32>::from_digits(y.bytes).as_();
    Wide256 { bytes: *(lhs * rhs).as_::<BUintD8<32>>().digits() }
}

/// `bnum::BUintD16::<16> / bnum::BUintD16::<16>`, which panics on a zero
/// divisor: on any other it returns the quotient rounded down.
#[verifier::external_body]
fn u_div(x: &Wide256, y: &Wide256) -> (r: Wide256)
    requires
        y@ > 0,
    ensures
        r@ == x@ / y@,
{
    let lhs: BUintD16<16> = BUintD8::<32>::from_digits(x.bytes).as_();
    let rhs: BUintD16<16> = BUintD8::<32>::from_digits(y.bytes).as_();
    Wide256 { bytes: *(lhs / rhs).as_::<BUintD8<32>>().digits() }
}

/// `u64::try_from(bnum::BUintD16::<16>)`: the number itself where it fits in
/// 64 bits, and the error where it does not.
#[verifier::external_body]
fn u_try_to_u64(x: &Wide256) -> (r: Result<u64, ::bnum::errors::TryFromIntError>)
    ensures
        r is Ok <==> x@ <= u64::MAX,
        r matches Ok(v) ==> v == x@,
{
    let v: BUintD16<16> = BUintD8::<32>::from_digits(x.bytes).as_();
    u64::try_from(v)
}

/// Narrows a 256-bit number to 64 bits: the number itself where it fits, and
/// `u64::MAX` where it does not.
pub fn u_to_u64_floor(x: &Wide256) -> (r: u64)
    ensures
        r == min_nat(x@, u64::MAX as nat),
{
    match u_try_to_u64(x) {
        Ok(v) => v,
        Err(_) => u64::MAX,
    }
}

/// 256-bit arithmetic of `bnum`.
pub struct BnumCalculator;

impl StakeCalculator for BnumCalculator {
    fn rate_limited_stake_change(
        epoch: Epoch,
        account_portion: u64,
        cluster_portion: u64,
        cluster_effective: u64,
        new_rate_activation_epoch: Option<Epoch>,
    ) -> (delta: u64) {
        if account_portion == 0 || cluster_portion == 0 || cluster_effective == 0 {
            return 0;
        }
        let rate_bps: u64 = warmup_cooldown_rate_bps(epoch, new_rate_activation_epoch);

        let a = u64_to_u(account_portion);
        let ce = u64_to_u(cluster_effective);
        let rate = u64_to_u(rate_bps);
        let cp = u64_to_u(cluster_portion);
        let tenk = u64_to_u(BASIS_POINTS_PER_UNIT);

        proof {
            lemma_factors_fit(account_portion, cluster_effective, rate_bps);
            lemma_factors_fit(cluster_portion, BASIS_POINTS_PER_UNIT, 1);
        }
        let num = u_mul(&u_mul(&a, &ce), &rate);
        let den = u_mul(&cp, &tenk);
        assert(den@ == cluster_portion * 10_000 && den@ > 0) by (nonlinear_arith)
            requires
                den@ == cluster_portion * 10_000,
                cluster_portion > 0,
        ;
        let q = u_div(&num, &den);
        let delta: u64 = u_to_u64_floor(&q);

        if delta > account_portion {
            account_portion
        } else {
            delta
        }
    }
}

} // verus!
