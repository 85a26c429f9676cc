use bpf_math::implementations::bnum::u_to_u64_floor;
use bpf_math::implementations::{crypto, fixed};
use bpf_math::implementations::uint_impl::{UintCalculator, WideFactors};
use bpf_math::wide::Wide256;

fn wide(value: u128, top: u128) -> Wide256 {
    let mut bytes = [0u8; 32];
    bytes[..16].copy_from_slice(&value.to_le_bytes());
    bytes[16..].copy_from_slice(&top.to_le_bytes());
    Wide256 { bytes }
}

#[test]
fn wide_fits_when_the_high_bytes_are_zero() {
    assert!(wide(0, 0).fits_u64());
    assert!(wide(u64::MAX as u128, 0).fits_u64());
    assert!(!wide(u64::MAX as u128 + 1, 0).fits_u64());
    assert!(!wide(0, 1).fits_u64());
    assert!(!wide(5, 1 << 127).fits_u64());
    for i in 8..32 {
        let mut bytes = [0u8; 32];
        bytes[i] = 1;
        assert!(!Wide256 { bytes }.fits_u64());
    }
}

#[test]
fn wide_low_word_is_little_endian() {
    assert_eq!(wide(0, 0).low_u64(), 0);
    assert_eq!(wide(0x0102_0304_0506_0708, 0).low_u64(), 0x0102_0304_0506_0708);
    assert_eq!(wide(u64::MAX as u128, 0).low_u64(), u64::MAX);
    assert_eq!(wide((7 << 64) + 42, 9).low_u64(), 42);
    let mut bytes = [0u8; 32];
    bytes[0] = 0x34;
    bytes[1] = 0x12;
    assert_eq!(Wide256 { bytes }.low_u64(), 0x1234);
}

#[test]
fn crypto_floor_saturates() {
    assert_eq!(crypto::u256_floor_to_u64(&wide(0, 0)), 0);
    assert_eq!(crypto::u256_floor_to_u64(&wide(123_456_789, 0)), 123_456_789);
    assert_eq!(crypto::u256_floor_to_u64(&wide(u64::MAX as u128, 0)), u64::MAX);
    assert_eq!(crypto::u256_floor_to_u64(&wide(1 << 64, 0)), u64::MAX);
    assert_eq!(crypto::u256_floor_to_u64(&wide(5, 1)), u64::MAX);
}

#[test]
fn fixed_floor_saturates() {
    assert_eq!(fixed::u256_floor_to_u64(&wide(0, 0)), 0);
    assert_eq!(fixed::u256_floor_to_u64(&wide(0x0102_0304_0506_0708, 0)), 0x0102_0304_0506_0708);
    assert_eq!(fixed::u256_floor_to_u64(&wide(u64::MAX as u128, 0)), u64::MAX);
    assert_eq!(fixed::u256_floor_to_u64(&wide(1 << 64, 0)), u64::MAX);
    assert_eq!(fixed::u256_floor_to_u64(&wide(5, 1)), u64::MAX);
}

#[test]
fn bnum_floor_saturates() {
    assert_eq!(u_to_u64_floor(&wide(0, 0)), 0);
    assert_eq!(u_to_u64_floor(&wide(0x0102_0304_0506_0708, 0)), 0x0102_0304_0506_0708);
    assert_eq!(u_to_u64_floor(&wide(u64::MAX as u128, 0)), u64::MAX);
    assert_eq!(u_to_u64_floor(&wide(1 << 64, 0)), u64::MAX);
    assert_eq!(u_to_u64_floor(&wide(5, 1)), u64::MAX);
}

#[test]
fn uint_factors_skip_zero_portions() {
    assert!(UintCalculator::factors(1, 0, 2, 3, None).is_none());
    assert!(UintCalculator::factors(1, 2, 0, 3, None).is_none());
    assert!(UintCalculator::factors(1, 2, 3, 0, None).is_none());
    let f: WideFactors = UintCalculator::factors(4, 100_000, 50_000, 70_000, Some(4)).unwrap();
    assert_eq!(f.account_portion, 100_000);
    assert_eq!(f.cluster_effective, 70_000);
    assert_eq!(f.rate_bps, 900);
    assert_eq!(f.cluster_portion, 50_000);
    assert_eq!(f.basis_points, 10_000);
    let f = UintCalculator::factors(3, 1, 2, 3, Some(4)).unwrap();
    assert_eq!(f.rate_bps, 2_500);
}

#[test]
fn uint_clamp_limits_the_quotient() {
    assert_eq!(UintCalculator::clamp(100, &wide(0, 0)), 0);
    assert_eq!(UintCalculator::clamp(100, &wide(99, 0)), 99);
    assert_eq!(UintCalculator::clamp(100, &wide(100, 0)), 100);
    assert_eq!(UintCalculator::clamp(100, &wide(101, 0)), 100);
    assert_eq!(UintCalculator::clamp(100, &wide(1 << 64, 0)), 100);
    assert_eq!(UintCalculator::clamp(100, &wide(0, 1)), 100);
    assert_eq!(UintCalculator::clamp(u64::MAX, &wide(u64::MAX as u128 + 5, 0)), u64::MAX);
}
