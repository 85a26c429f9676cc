//! The decisions of the calculator whose 256-bit division is done by the
//! caller: which numbers to multiply and divide, and what to make of the
//! quotient.

use crate::capped::min_nat;
use crate::radix::BASIS_POINTS_PER_UNIT;
use crate::stake::{rate_bps, rate_limited_delta, warmup_cooldown_rate_bps, Epoch};
use crate::wide::Wide256;
use vstd::prelude::*;

verus! {

/// The numbers whose wide quotient the delta is taken from: the product of
/// the three numerator factors over the product of the two denominator
/// factors.
#[derive(Clone, Copy)]
pub struct WideFactors {
    pub account_portion: u64,
    pub cluster_effective: u64,
    pub rate_bps: u64,
    pub cluster_portion: u64,
    pub basis_points: u64,
}

impl WideFactors {
    /// The quotient, rounded down, that the factors ask for.
    pub open spec fn quotient(&self) -> nat {
        (self.account_portion * self.cluster_effective * self.rate_bps) as nat / (
        self.cluster_portion * self.basis_points) as nat
    }
}

/// A calculator whose wide arithmetic lies outside this library.
pub struct UintCalculator;

impl UintCalculator {
    /// The factors to divide, or nothing when a portion is zero and the delta
    /// is zero without any division.
    pub fn factors(
        epoch: Epoch,
        account_portion: u64,
        cluster_portion: u64,
        cluster_effective: u64,
        new_rate_activation_epoch: Option<Epoch>,
    ) -> (r: Option<WideFactors>)
        ensures
            r == (if account_portion == 0 || cluster_portion == 0 || cluster_effective == 0 {
                None
            } else {
                Some(
                    WideFactors {
                        account_portion,
                        cluster_effective,
                        rate_bps: rate_bps(epoch, new_rate_activation_epoch),
                        cluster_portion,
                        basis_points: 10_000,
                    },
                )
            }),
            r matches Some(f) ==> min_nat(f.quotient(), account_portion as nat)
                == rate_limited_delta(
                epoch,
                account_portion,
                cluster_portion,
                cluster_effective,
                new_rate_activation_epoch,
            ),
    {
        if account_portion == 0 || cluster_portion == 0 || cluster_effective == 0 {
            return None;
        }
        let rate_bps: u64 = warmup_cooldown_rate_bps(epoch, new_rate_activation_epoch);
        Some(
            WideFactors {
                account_portion,
                cluster_effective,
                rate_bps,
                cluster_portion,
                basis_points: BASIS_POINTS_PER_UNIT,
            },
        )
    }

    /// The delta for a wide quotient: the quotient itself, but never more
    /// than the account's portion.
    pub fn clamp(account_portion: u64, quotient: &Wide256) -> (delta: u64)
        ensures
            delta == min_nat(quotient@, account_portion as nat),
    {
        if !quotient.fits_u64() {
            return account_portion;
        }
        let low: u64 = quotient.low_u64();
        if low > account_portion {
            account_portion
        } else {
            low
        }
    }
}

} // verus!
