//! Bit-level operations on 32- and 64-bit words, exercised through the
//! library's bit-slice interface.

use rv64_emu::sign_extend_64;
use rv64_emu::BitSlice;

#[test]
fn bit_slice_test_bit_operations() {
    let mut x = 0u64;
    x.set_bit(3, true);
    assert!(x.bit(3));
    assert_eq!(x, 0b1000);
    x.set_bit(3, false);
    assert!(!x.bit(3));
    assert_eq!(x, 0);
    x.set_bit_range(4..8, 0b1010);
    assert_eq!(x.bit_range(4..8), 0b1010);
    assert_eq!(x, 0b10100000);
    x.set_bit_range(6..10, 0b1100);
    assert_eq!(x.bit_range(6..10), 0b1100);
    assert_eq!(x, 0b1100100000);
}

#[test]
fn bit_slice_test_bit_boundaries() {
    let mut x = 0u64;
    x.set_bit(0, true);
    x.set_bit(63, true);
    assert!(x.bit(0));
    assert!(x.bit(63));
    x.set_bit(0, false);
    x.set_bit(63, false);
    assert!(!x.bit(0));
    assert!(!x.bit(63));
}

#[test]
fn bit_slice_test_repeat_set_clear() {
    let mut x = 0u64;
    x.set_bit(5, true);
    x.set_bit(5, true);
    assert!(x.bit(5));
    x.set_bit(5, false);
    x.set_bit(5, false);
    assert!(!x.bit(5));
}

#[test]
fn bit_slice_test_repeat_set_bit_range() {
    let mut x = 0u64;
    x.set_bit_range(10..20, 0b1010101010);
    assert_eq!(x.bit_range(10..20), 0b1010101010);
    x.set_bit_range(12..18, 0b111111);
    assert_eq!(x.bit_range(10..20), 0b1011111110);
}

#[test]
fn bit_slice_test_all_ones_and_zeros() {
    let mut x = 0u64;
    x.set_bit_range(0..64, u64::MAX);
    for i in 0..64 {
        assert!(x.bit(i));
    }
    x.set_bit_range(0..64, 0);
    for i in 0..64 {
        assert!(!x.bit(i));
    }
}

#[test]
fn bit_slice_test_empty_and_full_range() {
    let x = 0x1234567890abcdefu64;
    assert_eq!(x.bit_range(10..10), 0);
    assert_eq!(x.bit_range(0..64), x);
}

#[test]
fn bit_slice_test_set_bit_range_zero_and_max() {
    let mut x = 0u64;
    x.set_bit_range(10..20, 0);
    assert_eq!(x.bit_range(10..20), 0);
    x.set_bit_range(10..20, (1 << 10) - 1);
    assert_eq!(x.bit_range(10..20), (1 << 10) - 1);
}

#[test]
fn bit_slice_test_combined_operations() {
    let mut x = 0u64;
    x.set_bit_range(8..16, 0b10101010);
    x.set_bit(10, false);
    assert_eq!(x.bit_range(8..16), 0b10101010);
    x.set_bit(10, true);
    assert_eq!(x.bit_range(8..16), 0b10101110);
    x.set_bit(12, true);
    assert_eq!(x.bit_range(8..16), 0b10111110);
    assert_eq!(x, 0b10111110 << 8);
}

#[test]
fn bit_slice_test_extreme_values() {
    let mut x = u64::MAX;
    x.set_bit(0, false);
    x.set_bit(63, false);
    assert!(!x.bit(0));
    assert!(!x.bit(63));
    assert_eq!(x.bit_range(1..63), (1u64 << 62) - 1);
    x.set_bit_range(0..64, 0);
    assert_eq!(x, 0);
    x.set_bit_range(0..64, u64::MAX);
    assert_eq!(x, u64::MAX);
}

#[test]
fn bit_slice_test_bit_range_boundaries() {
    let mut x = 0u64;
    x.set_bit_range(0..0, 0);
    assert_eq!(x.bit_range(0..0), 0);
    x.set_bit_range(63..64, 1);
    assert_eq!(x.bit_range(63..64), 1);
    x.set_bit_range(0..64, u64::MAX);
    assert_eq!(x.bit_range(0..64), u64::MAX);
}

#[test]
fn bit_utils_test_bit_operations() {
    let mut x = 0u64;
    x.set_bit(3, true);
    assert!(x.bit(3));
    assert_eq!(x, 0b1000);
    x.set_bit(3, false);
    assert!(!x.bit(3));
    assert_eq!(x, 0);
    x.set_bit_range(4..8, 0b1010);
    assert_eq!(x.bit_range(4..8), 0b1010);
    assert_eq!(x, 0b10100000);
    x.set_bit_range(6..10, 0b1100);
    assert_eq!(x.bit_range(6..10), 0b1100);
    assert_eq!(x, 0b1100100000);
}

#[test]
fn bit_utils_test_bit_boundaries() {
    let mut x = 0u64;
    x.set_bit(0, true);
    x.set_bit(63, true);
    assert!(x.bit(0));
    assert!(x.bit(63));
    x.set_bit(0, false);
    x.set_bit(63, false);
    assert!(!x.bit(0));
    assert!(!x.bit(63));
}

#[test]
fn bit_utils_test_repeat_set_clear() {
    let mut x = 0u64;
    x.set_bit(5, true);
    x.set_bit(5, true);
    assert!(x.bit(5));
    x.set_bit(5, false);
    x.set_bit(5, false);
    assert!(!x.bit(5));
}

#[test]
fn bit_utils_test_repeat_set_bit_range() {
    let mut x = 0u64;
    x.set_bit_range(10..20, 0b1010101010);
    assert_eq!(x.bit_range(10..20), 0b1010101010);
    x.set_bit_range(12..18, 0b111111);
    assert_eq!(x.bit_range(10..20), 0b1011111110);
}

#[test]
fn bit_utils_test_all_ones_and_zeros() {
    let mut x = 0u64;
    x.set_bit_range(0..64, u64::MAX);
    for i in 0..64 {
        assert!(x.bit(i));
    }
    x.set_bit_range(0..64, 0);
    for i in 0..64 {
        assert!(!x.bit(i));
    }
}

#[test]
fn bit_utils_test_empty_and_full_range() {
    let x = 0x1234567890abcdefu64;
    assert_eq!(x.bit_range(10..10), 0);
    assert_eq!(x.bit_range(0..64), x);
}

#[test]
fn bit_utils_test_set_bit_range_zero_and_max() {
    let mut x = 0u64;
    x.set_bit_range(10..20, 0);
    assert_eq!(x.bit_range(10..20), 0);
    x.set_bit_range(10..20, (1 << 10) - 1);
    assert_eq!(x.bit_range(10..20), (1 << 10) - 1);
}

#[test]
fn bit_utils_test_combined_operations() {
    let mut x = 0u64;
    x.set_bit_range(8..16, 0b10101010);
    x.set_bit(10, false);
    assert_eq!(x.bit_range(8..16), 0b10101010);
    x.set_bit(10, true);
    assert_eq!(x.bit_range(8..16), 0b10101110);
    x.set_bit(12, true);
    assert_eq!(x.bit_range(8..16), 0b10111110);
    assert_eq!(x, 0b10111110 << 8);
}

#[test]
fn bit_utils_test_extreme_values() {
    let mut x = u64::MAX;
    x.set_bit(0, false);
    x.set_bit(63, false);
    assert!(!x.bit(0));
    assert!(!x.bit(63));
    assert_eq!(x.bit_range(1..63), (1u64 << 62) - 1);
    x.set_bit_range(0..64, 0);
    assert_eq!(x, 0);
    x.set_bit_range(0..64, u64::MAX);
    assert_eq!(x, u64::MAX);
}

#[test]
fn bit_utils_test_bit_range_boundaries() {
    let mut x = 0u64;
    x.set_bit_range(0..0, 0);
    assert_eq!(x.bit_range(0..0), 0);
    x.set_bit_range(63..64, 1);
    assert_eq!(x.bit_range(63..64), 1);
    assert!(x.bit(63));
    x.set_bit_range(5..6, 1);
    assert_eq!(x.bit_range(5..6), 1);
    assert!(x.bit(5));
    x.set_bit_range(0..64, u64::MAX);
    assert_eq!(x.bit_range(0..64), u64::MAX);
}

#[test]
fn test_bit_operations_u32() {
    let mut x = 0u32;
    x.set_bit(3, true);
    assert!(x.bit(3));
    assert_eq!(x, 0b1000);
    x.set_bit(3, false);
    assert!(!x.bit(3));
    assert_eq!(x, 0);
    x.set_bit_range(4..8, 0b1010);
    assert_eq!(x.bit_range(4..8), 0b1010);
    assert_eq!(x, 0b10100000);
    x.set_bit_range(6..10, 0b1100);
    assert_eq!(x.bit_range(6..10), 0b1100);
    assert_eq!(x, 0b1100100000);
}

#[test]
fn test_bit_boundaries_u32() {
    let mut x = 0u32;
    x.set_bit(0, true);
    x.set_bit(31, true);
    assert!(x.bit(0));
    assert!(x.bit(31));
    x.set_bit(0, false);
    x.set_bit(31, false);
    assert!(!x.bit(0));
    assert!(!x.bit(31));
}

#[test]
fn test_bit_range_boundaries_u32() {
    let mut x = 0u32;
    x.set_bit_range(0..0, 0);
    assert_eq!(x.bit_range(0..0), 0);
    x.set_bit_range(31..32, 1);
    assert_eq!(x.bit_range(31..32), 1);
    x.set_bit_range(0..32, u32::MAX as u64);
    assert_eq!(x.bit_range(0..32), u32::MAX as u64);
}

#[test]
fn test_repeat_set_clear_u32() {
    let mut x = 0u32;
    x.set_bit(5, true);
    x.set_bit(5, true);
    assert!(x.bit(5));
    x.set_bit(5, false);
    x.set_bit(5, false);
    assert!(!x.bit(5));
}

#[test]
fn test_repeat_set_bit_range_u32() {
    let mut x = 0u32;
    x.set_bit_range(10..20, 0b1010101010);
    assert_eq!(x.bit_range(10..20), 0b1010101010);
    x.set_bit_range(12..18, 0b111111);
    assert_eq!(x.bit_range(10..20), 0b1011111110);
}

#[test]
fn test_all_ones_and_zeros_u32() {
    let mut x = 0u32;
    x.set_bit_range(0..32, u32::MAX as u64);
    for i in 0..32 {
        assert!(x.bit(i));
    }
    x.set_bit_range(0..32, 0);
    for i in 0..32 {
        assert!(!x.bit(i));
    }
}

#[test]
fn test_empty_and_full_range_u32() {
    let x = 0x12345678u32;
    assert_eq!(x.bit_range(10..10), 0);
    assert_eq!(x.bit_range(0..32), x as u64);
}

#[test]
fn test_set_bit_range_zero_and_max_u32() {
    let mut x = 0u32;
    x.set_bit_range(10..20, 0);
    assert_eq!(x.bit_range(10..20), 0);
    x.set_bit_range(10..20, (1 << 10) - 1);
    assert_eq!(x.bit_range(10..20), (1 << 10) - 1);
}

#[test]
fn test_combined_operations_u32() {
    let mut x = 0u32;
    x.set_bit_range(8..16, 0b10101010);
    x.set_bit(10, false);
    assert_eq!(x.bit_range(8..16), 0b10101010);
    x.set_bit(10, true);
    assert_eq!(x.bit_range(8..16), 0b10101110);
    x.set_bit(12, true);
    assert_eq!(x.bit_range(8..16), 0b10111110);
    assert_eq!(x, 0b10111110 << 8);
}

#[test]
fn test_extreme_values_u32() {
    let mut x = u32::MAX;
    x.set_bit(0, false);
    x.set_bit(31, false);
    assert!(!x.bit(0));
    assert!(!x.bit(31));
    assert_eq!(x.bit_range(1..31), (1u64 << 30) - 1);
    x.set_bit_range(0..32, 0);
    assert_eq!(x, 0);
    x.set_bit_range(0..32, u32::MAX as u64);
    assert_eq!(x, u32::MAX);
}

#[test]
fn test_sign_extend_64() {
    assert_eq!(sign_extend_64(0x7F, 8), 0x7F);
    assert_eq!(sign_extend_64(0x80, 8), 0xFFFFFFFFFFFFFF80);
    assert_eq!(sign_extend_64(0x7FF, 12), 0x7FF);
    assert_eq!(sign_extend_64(0x800, 12), 0xFFFFFFFFFFFFF800);
    assert_eq!(sign_extend_64(0x7FFF, 16), 0x7FFF);
    assert_eq!(sign_extend_64(0x8000, 16), 0xFFFFFFFFFFFF8000);
    assert_eq!(sign_extend_64(0x7FFFFFFF, 32), 0x7FFFFFFF);
    assert_eq!(sign_extend_64(0x80000000, 32), 0xFFFFFFFF80000000);
    assert_eq!(sign_extend_64(0x7FFFFFFFFFFFFFFF, 63), 0xFFFFFFFFFFFFFFFF);
    assert_eq!(sign_extend_64(0x4000000000000000, 63), 0xC000000000000000);
    assert_eq!(sign_extend_64(0x7FFFFFFFFFFFFFFF, 64), 0x7FFFFFFFFFFFFFFF);
    assert_eq!(sign_extend_64(0xFFFFFFFFFFFFFFFF, 64), 0xFFFFFFFFFFFFFFFF);
    assert_eq!(sign_extend_64(0x0, 64), 0x0);
}
