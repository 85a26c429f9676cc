//! Cluster-wide stake totals of one epoch.

use vstd::prelude::*;

verus! {

/// The cluster's stake at the end of an epoch: what is warming up, what is
/// cooling down, and what is effective.
#[derive(Clone, Copy)]
pub struct StakeHistoryEntry {
    pub activating: u64,
    pub deactivating: u64,
    pub effective: u64,
}

} // verus!
