//! The calculator on native 128-bit integers that multiplies all three
//! factors before it divides, as long as the product fits.

use crate::implementations::plain::{lemma_product_fits, PlainCalculator};
use crate::radix::BASIS_POINTS_PER_UNIT;
use crate::stake::{warmup_cooldown_rate_bps, Epoch, StakeCalculator};
use vstd::prelude::*;

verus! {

/// Native 128-bit arithmetic, product first.
pub struct ManualCalculator;

impl StakeCalculator for ManualCalculator {
    fn rate_limited_stake_change(
        epoch: Epoch,
        account_portion: u64,
        cluster_portion: u64,
        cluster_effective: u64,
        new_rate_activation_epoch: Option<Epoch>,
    ) -> (delta: u64) {
        if account_portion == 0 || cluster_portion == 0 || cluster_effective == 0 {
            return 0;
        }
        let rate_bps: u64 = warmup_cooldown_rate_bps(epoch, new_rate_activation_epoch);
        let numerator: Option<u128> = match (account_portion as u128).checked_mul(
            cluster_effective as u128,
        ) {
            Some(x) => x.checked_mul(rate_bps as u128),
            None => None,
        };
        proof {
            lemma_product_fits(cluster_portion, BASIS_POINTS_PER_UNIT);
        }
        let denominator: u128 = (cluster_portion as u128) * (BASIS_POINTS_PER_UNIT as u128);
        assert(denominator == cluster_portion * 10_000 && 0 < denominator) by (nonlinear_arith)
            requires
                denominator == cluster_portion * BASIS_POINTS_PER_UNIT,
                BASIS_POINTS_PER_UNIT == 10_000,
                cluster_portion > 0,
        ;

        match numerator {
            Some(n) => {
                let delta: u128 = n.checked_div(denominator).unwrap();
                if delta < account_portion as u128 {
                    delta as u64
                } else {
                    account_portion
                }
            },
            // The product of the three factors needs more than 128 bits:
            // divide before scaling.
            None => PlainCalculator::rate_limited_stake_change(
                epoch,
                account_portion,
                cluster_portion,
                cluster_effective,
                new_rate_activation_epoch,
            ),
        }
    }
}

} // verus!
