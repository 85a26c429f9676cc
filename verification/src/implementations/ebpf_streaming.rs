//! The calculator that needs nothing wider than 64 bits: a capped division of
//! the two large factors first, then a correction from the remainder.

use crate::capped::{min_nat, mul_cap};
use crate::divide::{
    lemma_cap_honored, lemma_mul_div_reconstructs, mul_div_by_cp10k_capped, mul_div_spec,
    remainder_mul_div, remainder_mul_div_spec,
};
use crate::radix::{modulus, radix_value};
use crate::stake::{
    lemma_two_pass_division, rate_bps, rate_limited_delta, warmup_cooldown_rate_bps, Epoch,
    StakeCalculator,
};
use vstd::arithmetic::div_mod::{
    lemma_fundamental_div_mod, lemma_fundamental_div_mod_converse, lemma_mod_bound,
};
use vstd::prelude::*;

verus! {

/// A quotient above `limit / rate` times `rate` is above `limit`.
proof fn lemma_over_cap(q: nat, limit: nat, rate: nat)
    requires
        rate > 0,
        q > limit / rate,
    ensures
        q * rate > limit,
{
    lemma_fundamental_div_mod(limit as int, rate as int);
    lemma_mod_bound(limit as int, rate as int);
    assert(q * rate >= (limit / rate + 1) * rate) by (nonlinear_arith)
        requires
            q >= limit / rate + 1,
    ;
    assert((limit / rate + 1) * rate == rate * (limit / rate) + rate) by (nonlinear_arith);
}

/// A quotient of at most `limit / rate` times `rate` is at most `limit`.
proof fn lemma_under_cap(q: nat, limit: nat, rate: nat)
    requires
        rate > 0,
        q <= limit / rate,
    ensures
        q * rate <= limit,
{
    lemma_fundamental_div_mod(limit as int, rate as int);
    lemma_mod_bound(limit as int, rate as int);
    assert(q * rate <= (limit / rate) * rate) by (nonlinear_arith)
        requires
            q <= limit / rate,
    ;
    assert((limit / rate) * rate == rate * (limit / rate)) by (nonlinear_arith);
}

/// The delta as the streaming engine builds it: the capped quotient of the
/// two large factors times the rate, plus the rate's share of the remainder,
/// with the account's portion wherever a step would pass it.
pub open spec fn streaming_delta(
    epoch: Epoch,
    account_portion: u64,
    cluster_portion: u64,
    cluster_effective: u64,
    new_rate_activation_epoch: Option<Epoch>,
) -> nat {
    let rate = rate_bps(epoch, new_rate_activation_epoch);
    if account_portion == 0 || cluster_portion == 0 || cluster_effective == 0 {
        0
    } else {
        match mul_div_spec(
            account_portion,
            cluster_effective,
            cluster_portion,
            account_portion / rate,
        ) {
            None => account_portion as nat,
            Some((q1, rem_hi, rem_lo)) => {
                let total = min_nat((q1 * rate) as nat, account_portion as nat);
                let correction = remainder_mul_div_spec(rem_hi, rem_lo, rate, cluster_portion);
                if total >= account_portion || correction >= account_portion - total {
                    account_portion as nat
                } else {
                    total + correction
                }
            },
        }
    }
}

/// The two-pass evaluation of the streaming engine and the single wide
/// division give the same delta on all inputs.
pub proof fn lemma_streaming_agrees_with_wide_division(
    epoch: Epoch,
    account_portion: u64,
    cluster_portion: u64,
    cluster_effective: u64,
    new_rate_activation_epoch: Option<Epoch>,
)
    ensures
        streaming_delta(
            epoch,
            account_portion,
            cluster_portion,
            cluster_effective,
            new_rate_activation_epoch,
        ) == rate_limited_delta(
            epoch,
            account_portion,
            cluster_portion,
            cluster_effective,
            new_rate_activation_epoch,
        ),
{
    if account_portion == 0 || cluster_portion == 0 || cluster_effective == 0 {
        return ;
    }
    let rate = rate_bps(epoch, new_rate_activation_epoch);
    let q_cap = (account_portion / rate) as u64;
    let m = modulus(cluster_portion);
    let product = (account_portion * cluster_effective) as nat;
    let full = (product * rate) as nat / m;
    lemma_two_pass_division(product, rate as nat, m);
    lemma_mul_div_reconstructs(account_portion, cluster_effective, cluster_portion, q_cap);
    lemma_cap_honored(account_portion, cluster_effective, cluster_portion, q_cap);
    match mul_div_spec(account_portion, cluster_effective, cluster_portion, q_cap) {
        None => {
            lemma_over_cap(product / m, account_portion as nat, rate as nat);
        },
        Some((q1, rem_hi, rem_lo)) => {
            lemma_under_cap(q1 as nat, account_portion as nat, rate as nat);
            lemma_fundamental_div_mod_converse(
                product as int,
                m as int,
                q1 as int,
                radix_value(rem_hi, rem_lo) as int,
            );
        },
    }
}

/// The streaming engine.
pub struct EbpfStreamingCalculator;

impl StakeCalculator for EbpfStreamingCalculator {
    fn rate_limited_stake_change(
        epoch: Epoch,
        account_portion: u64,
        cluster_portion: u64,
        cluster_effective: u64,
        new_rate_activation_epoch: Option<Epoch>,
    ) -> (delta: u64) {
        proof {
            lemma_streaming_agrees_with_wide_division(
                epoch,
                account_portion,
                cluster_portion,
                cluster_effective,
                new_rate_activation_epoch,
            );
        }
        if account_portion == 0 || cluster_portion == 0 || cluster_effective == 0 {
            return 0;
        }
        let rate_bps: u64 = warmup_cooldown_rate_bps(epoch, new_rate_activation_epoch);

        // The largest first quotient whose multiple by the rate stays within
        // the account's portion.
        let q_cap: u64 = account_portion / rate_bps;

        let (q1, rem_hi, rem_lo) = match mul_div_by_cp10k_capped(
            account_portion,
            cluster_effective,
            cluster_portion,
            q_cap,
        ) {
            Some(t) => t,
            None => return account_portion,
        };

        let total: u64 = mul_cap(q1, rate_bps, account_portion);
        if total >= account_portion {
            return account_portion;
        }
        let t2: u64 = remainder_mul_div(rem_hi, rem_lo, rate_bps, cluster_portion);
        let room: u64 = account_portion - total;
        if t2 >= room {
            account_portion
        } else {
            total + t2
        }
    }
}

} // verus!
