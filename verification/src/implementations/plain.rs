//! The calculator on native 128-bit integers that divides before it scales,
//! so that no intermediate value leaves 128 bits.

use crate::radix::BASIS_POINTS_PER_UNIT;
use crate::stake::{lemma_two_pass_division, warmup_cooldown_rate_bps, Epoch, StakeCalculator};
use vstd::arithmetic::div_mod::lemma_mod_bound;
use vstd::prelude::*;

verus! {

/// The product of two 64-bit numbers fits in 128 bits.
pub proof fn lemma_product_fits(x: u64, y: u64)
    ensures
        x * y <= 0xffff_ffff_ffff_fffe_0000_0000_0000_0001,
        x * y <= u128::MAX,
{
    assert(x * y <= 0xffff_ffff_ffff_fffe_0000_0000_0000_0001) by (nonlinear_arith)
        requires
            x <= 0xffff_ffff_ffff_ffff,
            y <= 0xffff_ffff_ffff_ffff,
    ;
}

/// Native 128-bit arithmetic, quotient first.
pub struct PlainCalculator;

impl StakeCalculator for PlainCalculator {
    fn rate_limited_stake_change(
        epoch: Epoch,
        account_portion: u64,
        cluster_portion: u64,
        cluster_effective: u64,
        new_rate_activation_epoch: Option<Epoch>,
    ) -> (delta: u64) {
        if account_portion == 0 || cluster_portion == 0 || cluster_effective == 0 {
            return 0;
        }
        let rate_bps: u64 = warmup_cooldown_rate_bps(epoch, new_rate_activation_epoch);
        proof {
            lemma_product_fits(account_portion, cluster_effective);
            lemma_product_fits(cluster_portion, BASIS_POINTS_PER_UNIT);
        }
        let product: u128 = (account_portion as u128) * (cluster_effective as u128);
        let denominator: u128 = (cluster_portion as u128) * (BASIS_POINTS_PER_UNIT as u128);
        assert(denominator == cluster_portion * 10_000 && 0 < denominator
            <= 184_467_440_737_095_516_150_000) by (nonlinear_arith)
            requires
                denominator == cluster_portion * BASIS_POINTS_PER_UNIT,
                BASIS_POINTS_PER_UNIT == 10_000,
                cluster_portion > 0,
        ;
        let quotient: u128 = product / denominator;
        let remainder: u128 = product % denominator;
        proof {
            lemma_two_pass_division(product as nat, rate_bps as nat, denominator as nat);
            lemma_mod_bound(product as int, denominator as int);
        }
        let total: u128 = match quotient.checked_mul(rate_bps as u128) {
            Some(t) => t,
            None => {
                return account_portion;
            },
        };
        if total >= account_portion as u128 {
            return account_portion;
        }
        proof {
            assert(remainder * rate_bps <= u128::MAX) by (nonlinear_arith)
                requires
                    remainder < 184_467_440_737_095_516_150_000,
                    rate_bps <= 2_500,
            ;
        }
        let correction: u128 = remainder * (rate_bps as u128) / denominator;
        let room: u128 = account_portion as u128 - total;
        if correction >= room {
            account_portion
        } else {
            (total + correction) as u64
        }
    }
}

} // verus!
