//! A driver that unpacks one 64-bit word into the inputs of both selectors
//! and folds their results into one word.

use crate::stake::{
    calculate_activation_allowance, calculate_deactivation_allowance, rate_limited_delta,
    StakeCalculator,
};
use crate::stake_history::StakeHistoryEntry;
use vstd::prelude::*;

verus! {

/// The account stake that `arg` stands for: its lowest 16 bits plus one.
pub open spec fn packed_account_stake(arg: u64) -> u64 {
    ((arg & 0xffff) + 1) as u64
}

/// The cluster state that `arg` stands for, from its bits 16 to 31.
pub open spec fn packed_cluster_state(arg: u64) -> StakeHistoryEntry {
    let cluster_share = (((arg >> 16) & 0xffff) + 1) as u64;
    StakeHistoryEntry {
        activating: cluster_share,
        deactivating: (cluster_share / 2 + 1) as u64,
        effective: (2 * cluster_share) as u64,
    }
}

/// The word that the driver returns: the activation allowance of the packed
/// account stake, exclusive-or the deactivation allowance of half of it plus
/// one.
pub open spec fn packed_result(arg: u64) -> u64 {
    let account_stake = packed_account_stake(arg);
    let cluster = packed_cluster_state(arg);
    let activation = rate_limited_delta(
        arg,
        account_stake,
        cluster.activating,
        cluster.effective,
        Some((arg / 3) as u64),
    );
    let deactivation = rate_limited_delta(
        arg,
        (account_stake / 2 + 1) as u64,
        cluster.deactivating,
        cluster.effective,
        Some((arg / 5) as u64),
    );
    (activation as u64) ^ (deactivation as u64)
}

/// Runs both selectors of the calculator `T` on the inputs packed in `arg`.
pub fn entrypoint<T: StakeCalculator>(arg: u64) -> (r: u64)
    ensures
        r == packed_result(arg),
{
    assert(arg & 0xffff <= 0xffff) by (bit_vector);
    assert((arg >> 16) & 0xffff <= 0xffff) by (bit_vector);
    let account_stake: u64 = (arg & 0xffff) + 1;
    let cluster_share: u64 = ((arg >> 16) & 0xffff) + 1;
    assert(cluster_share << 1 == 2 * cluster_share) by (bit_vector)
        requires
            cluster_share <= 0x1_0000,
    ;
    let doubled: u64 = cluster_share << 1;
    let effective: u64 = if doubled < 1 {
        1
    } else {
        doubled
    };

    let cluster_state = StakeHistoryEntry {
        activating: cluster_share,
        deactivating: (cluster_share / 2) + 1,
        effective,
    };

    let activation: u64 = calculate_activation_allowance::<T>(
        arg,
        account_stake,
        &cluster_state,
        Some(arg / 3),
    );
    let deactivation: u64 = calculate_deactivation_allowance::<T>(
        arg,
        (account_stake / 2) + 1,
        &cluster_state,
        Some(arg / 5),
    );

    activation ^ deactivation
}

} // verus!
