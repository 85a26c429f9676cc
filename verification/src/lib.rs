//! Rate-limited stake deltas evaluated with 64-bit arithmetic only.
//!
//! The engine represents wide intermediate values as mixed-radix pairs
//! `(hi, lo)` standing for `hi * 10_000 + lo` and divides by a modulus of the
//! form `cp * 10_000` with bit-serial long division. Calculators on wide
//! integers evaluate the same formula and return the same numbers.

pub mod capped;
pub mod divide;
pub mod harness;
pub mod implementations;
pub mod radix;
pub mod stake;
pub mod stake_history;
pub mod wide;

pub use crate::capped::mul_cap;
pub use crate::divide::{mul_div_by_cp10k_capped, remainder_mul_div};
pub use crate::harness::entrypoint;
pub use crate::radix::{split_base_10k, BASIS_POINTS_PER_UNIT};
pub use crate::stake::{
    calculate_activation_allowance, calculate_deactivation_allowance, warmup_cooldown_rate_bps,
    Epoch, StakeCalculator, ORIGINAL_WARMUP_COOLDOWN_RATE_BPS, TOWER_WARMUP_COOLDOWN_RATE_BPS,
};
