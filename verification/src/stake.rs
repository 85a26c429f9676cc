//! The rate-limited stake delta: its definition, the interface that every
//! calculator meets, and the activation and deactivation selectors.

use crate::capped::min_nat;
use crate::stake_history::StakeHistoryEntry;
use vstd::arithmetic::div_mod::{
    lemma_fundamental_div_mod, lemma_fundamental_div_mod_converse, lemma_mod_bound,
};
use vstd::prelude::*;

verus! {

pub type Epoch = u64;

/// Warmup and cooldown rate before the revised rate takes effect.
pub const ORIGINAL_WARMUP_COOLDOWN_RATE_BPS: u64 = 2_500;

/// Warmup and cooldown rate from the activation epoch on.
pub const TOWER_WARMUP_COOLDOWN_RATE_BPS: u64 = 900;

/// The rate in basis points that applies at `epoch`: 900 once an activation
/// epoch is set and reached, 2 500 otherwise.
pub open spec fn rate_bps(epoch: Epoch, new_rate_activation_epoch: Option<Epoch>) -> u64 {
    match new_rate_activation_epoch {
        Some(activation) => if epoch < activation {
            2_500u64
        } else {
            900u64
        },
        None => 2_500u64,
    }
}

/// The stake that may change in one epoch:
/// `floor(account_portion * cluster_effective * rate / (cluster_portion * 10_000))`,
/// never more than `account_portion`, and zero when any portion is zero.
pub open spec fn rate_limited_delta(
    epoch: Epoch,
    account_portion: u64,
    cluster_portion: u64,
    cluster_effective: u64,
    new_rate_activation_epoch: Option<Epoch>,
) -> nat {
    if account_portion == 0 || cluster_portion == 0 || cluster_effective == 0 {
        0
    } else {
        let rate = rate_bps(epoch, new_rate_activation_epoch);
        min_nat(
            (account_portion * cluster_effective * rate) as nat / (cluster_portion * 10_000) as nat,
            account_portion as nat,
        )
    }
}

/// The delta never exceeds the account's portion, and it is zero whenever one
/// of the three portions is zero.
pub proof fn lemma_delta_clamped(
    epoch: Epoch,
    account_portion: u64,
    cluster_portion: u64,
    cluster_effective: u64,
    new_rate_activation_epoch: Option<Epoch>,
)
    ensures
        rate_limited_delta(
            epoch,
            account_portion,
            cluster_portion,
            cluster_effective,
            new_rate_activation_epoch,
        ) <= account_portion,
        account_portion == 0 || cluster_portion == 0 || cluster_effective == 0
            ==> rate_limited_delta(
            epoch,
            account_portion,
            cluster_portion,
            cluster_effective,
            new_rate_activation_epoch,
        ) == 0,
{
}

/// Dividing a product with a third factor in two passes: the quotient of the
/// first two factors times the third, plus what the remainder contributes.
pub proof fn lemma_two_pass_division(product: nat, rate: nat, m: nat)
    requires
        m > 0,
    ensures
        (product * rate) / m == (product / m) * rate + ((product % m) * rate) / m,
{
    let q1 = product / m;
    let rem = product % m;
    let y = rem * rate;
    lemma_fundamental_div_mod(product as int, m as int);
    lemma_fundamental_div_mod(y as int, m as int);
    lemma_mod_bound(y as int, m as int);
    assert(product * rate == (q1 * rate + y / m) * m + y % m) by (nonlinear_arith)
        requires
            product == m * q1 + rem,
            y == rem * rate,
            y == m * (y / m) + y % m,
    ;
    lemma_fundamental_div_mod_converse(
        (product * rate) as int,
        m as int,
        (q1 * rate + y / m) as int,
        (y % m) as int,
    );
}

/// Selects the rate for `epoch`.
pub fn warmup_cooldown_rate_bps(epoch: Epoch, new_rate_activation_epoch: Option<Epoch>) -> (rate:
    u64)
    ensures
        rate == rate_bps(epoch, new_rate_activation_epoch),
        rate == 2_500 || rate == 900,
{
    match new_rate_activation_epoch {
        Some(activation) => {
            if epoch < activation {
                ORIGINAL_WARMUP_COOLDOWN_RATE_BPS
            } else {
                TOWER_WARMUP_COOLDOWN_RATE_BPS
            }
        },
        None => ORIGINAL_WARMUP_COOLDOWN_RATE_BPS,
    }
}

/// A way of evaluating the rate-limited delta. Every calculator returns the
/// same number on the same inputs.
pub trait StakeCalculator {
    fn rate_limited_stake_change(
        epoch: Epoch,
        account_portion: u64,
        cluster_portion: u64,
        cluster_effective: u64,
        new_rate_activation_epoch: Option<Epoch>,
    ) -> (delta: u64)
        ensures
            delta == rate_limited_delta(
                epoch,
                account_portion,
                cluster_portion,
                cluster_effective,
                new_rate_activation_epoch,
            ),
            delta <= account_portion,
            account_portion == 0 || cluster_portion == 0 || cluster_effective == 0 ==> delta == 0,
    ;
}

/// The stake of an account that may activate in `current_epoch`, limited by
/// what was activating in the cluster.
pub fn calculate_activation_allowance<T: StakeCalculator>(
    current_epoch: Epoch,
    account_activating_stake: u64,
    prev_epoch_cluster_state: &StakeHistoryEntry,
    new_rate_activation_epoch: Option<Epoch>,
) -> (allowance: u64)
    ensures
        allowance == rate_limited_delta(
            current_epoch,
            account_activating_stake,
            prev_epoch_cluster_state.activating,
            prev_epoch_cluster_state.effective,
            new_rate_activation_epoch,
        ),
        allowance <= account_activating_stake,
{
    T::rate_limited_stake_change(
        current_epoch,
        account_activating_stake,
        prev_epoch_cluster_state.activating,
        prev_epoch_cluster_state.effective,
        new_rate_activation_epoch,
    )
}

/// The stake of an account that may deactivate in `current_epoch`, limited by
/// what was deactivating in the cluster.
pub fn calculate_deactivation_allowance<T: StakeCalculator>(
    current_epoch: Epoch,
    account_deactivating_stake: u64,
    prev_epoch_cluster_state: &StakeHistoryEntry,
    new_rate_activation_epoch: Option<Epoch>,
) -> (allowance: u64)
    ensures
        allowance == rate_limited_delta(
            current_epoch,
            account_deactivating_stake,
            prev_epoch_cluster_state.deactivating,
            prev_epoch_cluster_state.effective,
            new_rate_activation_epoch,
        ),
        allowance <= account_deactivating_stake,
{
    T::rate_limited_stake_change(
        current_epoch,
        account_deactivating_stake,
        prev_epoch_cluster_state.deactivating,
        prev_epoch_cluster_state.effective,
        new_rate_activation_epoch,
    )
}

} // verus!
