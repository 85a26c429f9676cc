use bpf_math::implementations::bnum::BnumCalculator;
use bpf_math::implementations::crypto::CryptoCalculator;
use bpf_math::implementations::ebpf_streaming::EbpfStreamingCalculator;
use bpf_math::implementations::fixed::FixedCalculator;
use bpf_math::implementations::manual::ManualCalculator;
use bpf_math::implementations::plain::PlainCalculator;
use bpf_math::stake_history::StakeHistoryEntry;
use bpf_math::{
    calculate_activation_allowance, calculate_deactivation_allowance, entrypoint,
    warmup_cooldown_rate_bps, Epoch, StakeCalculator, ORIGINAL_WARMUP_COOLDOWN_RATE_BPS,
    TOWER_WARMUP_COOLDOWN_RATE_BPS,
};

/// Inputs `(epoch, account_portion, cluster_portion, cluster_effective,
/// activation epoch)` with the delta worked out by hand.
fn known_deltas() -> Vec<((Epoch, u64, u64, u64, Option<Epoch>), u64)> {
    vec![
        // 100_000 * 100_000 * 2_500 / (50_000 * 10_000) = 50_000, below the clamp.
        ((0, 100_000, 50_000, 100_000, None), 50_000),
        ((0, 1, 1, u64::MAX, None), 1),
        // 1_000 * 7 * 900 / 30_000 = 210 and 1_000 * 7 * 2_500 / 30_000 = 583.
        ((10, 1_000, 3, 7, Some(5)), 210),
        ((10, 1_000, 3, 7, Some(11)), 583),
        // The product of the three factors needs more than 128 bits and the
        // quotient is still below the account's portion.
        ((0, u64::MAX, u64::MAX, u64::MAX, None), 4_611_686_018_427_387_903),
        ((0, u64::MAX, u64::MAX, u64::MAX, Some(0)), 1_660_206_966_633_859_645),
        // The quotient is 2^64: its low 64 bits are zero.
        ((0, 1 << 32, 1, 1 << 34, None), 1 << 32),
        ((0, 123_456_789_012, 987_654_321, 55_555_555_555, None), 123_456_789_012),
        ((0, 123_456_789_012, 987_654_321_098, 55_555_555_555, Some(0)), 624_999_994),
        ((0, u64::MAX, 1, 1, None), 4_611_686_018_427_387_903),
        ((0, u64::MAX, 3, 1, Some(0)), 553_402_322_211_286_548),
        ((0, 10u64.pow(18), 10u64.pow(17), 3 * 10u64.pow(18), None), 10u64.pow(18)),
        // 10^18 * 3 * 10^18 * 900 / (7 * 10^17 * 10_000) = 27 * 10^17 / 7.
        (
            (0, 10u64.pow(18), 7 * 10u64.pow(17), 3 * 10u64.pow(18), Some(0)),
            385_714_285_714_285_714,
        ),
        ((0, 1_000, 10_000, 3, None), 0),
        ((0, 1_001, 2_500, 1, None), 0),
        ((7, 0, 5, 5, None), 0),
        ((7, 5, 0, 5, None), 0),
        ((7, 5, 5, 0, None), 0),
        ((7, 0, 0, 0, Some(3)), 0),
    ]
}

fn gives_known_deltas<T: StakeCalculator>() {
    for ((epoch, account, cluster, effective, activation), expected) in known_deltas() {
        assert_eq!(
            T::rate_limited_stake_change(epoch, account, cluster, effective, activation),
            expected,
            "epoch={epoch}, account={account}, cluster={cluster}, effective={effective}"
        );
    }
}

#[test]
fn rate_follows_the_activation_epoch() {
    assert_eq!(ORIGINAL_WARMUP_COOLDOWN_RATE_BPS, 2_500);
    assert_eq!(TOWER_WARMUP_COOLDOWN_RATE_BPS, 900);
    assert_eq!(warmup_cooldown_rate_bps(5, None), 2_500);
    assert_eq!(warmup_cooldown_rate_bps(u64::MAX, None), 2_500);
    assert_eq!(warmup_cooldown_rate_bps(5, Some(6)), 2_500);
    assert_eq!(warmup_cooldown_rate_bps(6, Some(6)), 900);
    assert_eq!(warmup_cooldown_rate_bps(7, Some(6)), 900);
    assert_eq!(warmup_cooldown_rate_bps(0, Some(0)), 900);
    assert_eq!(warmup_cooldown_rate_bps(u64::MAX - 1, Some(u64::MAX)), 2_500);
    assert_eq!(warmup_cooldown_rate_bps(u64::MAX, Some(u64::MAX)), 900);
}

#[test]
fn streaming_delta_below_the_clamp() {
    let delta = EbpfStreamingCalculator::rate_limited_stake_change(
        3, 100_000, 50_000, 100_000, Some(4),
    );
    assert_eq!(delta, 50_000);
}

#[test]
fn streaming_delta_saturates() {
    let delta = EbpfStreamingCalculator::rate_limited_stake_change(0, 1, 1, u64::MAX, None);
    assert_eq!(delta, 1);
    let delta =
        EbpfStreamingCalculator::rate_limited_stake_change(0, u64::MAX, 1, u64::MAX, None);
    assert_eq!(delta, u64::MAX);
}

#[test]
fn streaming_delta_is_zero_for_a_zero_portion() {
    assert_eq!(EbpfStreamingCalculator::rate_limited_stake_change(1, 0, 9, 9, None), 0);
    assert_eq!(EbpfStreamingCalculator::rate_limited_stake_change(1, 9, 0, 9, None), 0);
    assert_eq!(EbpfStreamingCalculator::rate_limited_stake_change(1, 9, 9, 0, None), 0);
}

#[test]
fn streaming_gives_known_deltas() {
    gives_known_deltas::<EbpfStreamingCalculator>();
}

#[test]
fn manual_gives_known_deltas() {
    gives_known_deltas::<ManualCalculator>();
}

#[test]
fn plain_gives_known_deltas() {
    gives_known_deltas::<PlainCalculator>();
}

#[test]
fn bnum_gives_known_deltas() {
    gives_known_deltas::<BnumCalculator>();
}

#[test]
fn crypto_gives_known_deltas() {
    gives_known_deltas::<CryptoCalculator>();
}

#[test]
fn fixed_gives_known_deltas() {
    gives_known_deltas::<FixedCalculator>();
}

/// A small generator of 64-bit samples that mixes magnitudes.
fn next_sample(state: &mut u64) -> u64 {
    *state = state
        .wrapping_mul(6_364_136_223_846_793_005)
        .wrapping_add(1_442_695_040_888_963_407);
    let raw = *state ^ (*state >> 29);
    raw >> (raw % 61)
}

#[test]
fn calculators_agree() {
    let mut state = 0x9e37_79b9_7f4a_7c15u64;
    for round in 0..2_000u64 {
        let epoch = next_sample(&mut state) % 100;
        let account = next_sample(&mut state);
        let cluster = next_sample(&mut state);
        let effective = next_sample(&mut state);
        let activation = match round % 3 {
            0 => None,
            1 => Some(next_sample(&mut state) % 100),
            _ => Some(0),
        };
        let streaming = EbpfStreamingCalculator::rate_limited_stake_change(
            epoch, account, cluster, effective, activation,
        );
        assert!(streaming <= account);
        let others = [
            ManualCalculator::rate_limited_stake_change(
                epoch, account, cluster, effective, activation,
            ),
            PlainCalculator::rate_limited_stake_change(
                epoch, account, cluster, effective, activation,
            ),
            BnumCalculator::rate_limited_stake_change(
                epoch, account, cluster, effective, activation,
            ),
            CryptoCalculator::rate_limited_stake_change(
                epoch, account, cluster, effective, activation,
            ),
            FixedCalculator::rate_limited_stake_change(
                epoch, account, cluster, effective, activation,
            ),
        ];
        for other in others {
            assert_eq!(
                streaming, other,
                "epoch={epoch}, account={account}, cluster={cluster}, effective={effective}"
            );
        }
    }
}

#[test]
fn streaming_matches_wide_division() {
    let mut state = 0x0123_4567_89ab_cdefu64;
    for _ in 0..2_000 {
        // Factors of at most 32 bits keep the reference within 128 bits.
        let account = next_sample(&mut state) >> 32;
        let cluster = next_sample(&mut state) >> 32;
        let effective = next_sample(&mut state) >> 32;
        let expected = if account == 0 || cluster == 0 || effective == 0 {
            0
        } else {
            let wide = account as u128 * effective as u128 * 900 / (cluster as u128 * 10_000);
            wide.min(account as u128) as u64
        };
        assert_eq!(
            EbpfStreamingCalculator::rate_limited_stake_change(
                1, account, cluster, effective, Some(1)
            ),
            expected
        );
    }
}

#[test]
fn selectors_pick_the_cluster_field() {
    let cluster =
        StakeHistoryEntry { activating: 50_000, deactivating: 25_000, effective: 100_000 };
    assert_eq!(
        calculate_activation_allowance::<EbpfStreamingCalculator>(0, 100_000, &cluster, None),
        50_000
    );
    // 100_000 * 100_000 * 2_500 / (25_000 * 10_000) = 100_000, the clamp itself.
    assert_eq!(
        calculate_deactivation_allowance::<EbpfStreamingCalculator>(0, 100_000, &cluster, None),
        100_000
    );
    // 10_000 * 100_000 * 900 / (25_000 * 10_000) = 3_600.
    assert_eq!(
        calculate_deactivation_allowance::<EbpfStreamingCalculator>(9, 10_000, &cluster, Some(9)),
        3_600
    );
    assert_eq!(
        calculate_activation_allowance::<CryptoCalculator>(9, 10_000, &cluster, Some(9)),
        1_800
    );
    assert_eq!(
        calculate_deactivation_allowance::<ManualCalculator>(9, 10_000, &cluster, Some(10)),
        10_000
    );
    let idle = StakeHistoryEntry { activating: 0, deactivating: 7, effective: 100 };
    assert_eq!(calculate_activation_allowance::<BnumCalculator>(0, 5, &idle, None), 0);
    assert_eq!(calculate_deactivation_allowance::<FixedCalculator>(0, 5, &idle, None), 5);
}

#[test]
fn driver_folds_both_allowances() {
    let cases: [(u64, u64); 9] = [
        (0, 0),
        (0xffff, 14_622),
        (0x7fff, 7_311),
        (9_999, 1_164),
        (0x5_ffff, 3_227),
        (0x1234_5678, 31),
        (0xffff_ffff, 0),
        (0x0000_0001_0003_8000, 6_230),
        (0xabcd_ef01_2345_6789, 1),
    ];
    for (arg, expected) in cases {
        assert_eq!(entrypoint::<EbpfStreamingCalculator>(arg), expected, "arg={arg}");
        assert_eq!(entrypoint::<ManualCalculator>(arg), expected, "arg={arg}");
        assert_eq!(entrypoint::<PlainCalculator>(arg), expected, "arg={arg}");
        assert_eq!(entrypoint::<BnumCalculator>(arg), expected, "arg={arg}");
        assert_eq!(entrypoint::<CryptoCalculator>(arg), expected, "arg={arg}");
        assert_eq!(entrypoint::<FixedCalculator>(arg), expected, "arg={arg}");
    }
}
