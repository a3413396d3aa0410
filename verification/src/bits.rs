//! Single-bit and bit-range extraction and update on 32- and 64-bit words,
//! plus sign extension, in the style of hardware bit slicing.
//!
//! Ranges are end-exclusive. Out-of-bounds positions, inverted ranges and
//! values too wide for their destination are ruled out by preconditions.

use core::ops::Range;
use vstd::prelude::*;

verus! {

/// Mask with the low `end` bits of a 64-bit word set.
pub open spec fn end_mask_64(end: usize) -> u64 {
    if end >= 64 {
        u64::MAX
    } else {
        ((1u64 << end) - 1) as u64
    }
}

/// Mask with the low `end` bits of a 32-bit word set.
pub open spec fn end_mask_32(end: usize) -> u32 {
    if end >= 32 {
        u32::MAX
    } else {
        ((1u32 << end) - 1) as u32
    }
}

/// Bit `pos` of `x`.
pub open spec fn spec_bit_64(x: u64, pos: usize) -> bool {
    x & (1u64 << pos) != 0
}

/// Bit `pos` of `x`.
pub open spec fn spec_bit_32(x: u32, pos: usize) -> bool {
    x & (1u32 << pos) != 0
}

/// The bits of `x` in positions `[lo, hi)`, shifted down to position 0.
pub open spec fn spec_bits_64(x: u64, lo: usize, hi: usize) -> u64 {
    if lo == hi {
        0u64
    } else {
        (x & end_mask_64(hi)) >> lo
    }
}

/// The bits of `x` in positions `[lo, hi)`, shifted down to position 0,
/// widened to 64 bits.
pub open spec fn spec_bits_32(x: u32, lo: usize, hi: usize) -> u64 {
    if lo == hi {
        0u64
    } else {
        (((x & end_mask_32(hi)) >> lo) as u64)
    }
}

/// `x` with bit `pos` replaced by `value`.
pub open spec fn spec_set_bit_64(x: u64, pos: usize, value: bool) -> u64 {
    if value {
        x | (1u64 << pos)
    } else {
        x & !(1u64 << pos)
    }
}

/// `x` with bit `pos` replaced by `value`.
pub open spec fn spec_set_bit_32(x: u32, pos: usize, value: bool) -> u32 {
    if value {
        x | (1u32 << pos)
    } else {
        x & !(1u32 << pos)
    }
}

/// `x` with the bits in positions `[lo, hi)` replaced by the low `hi - lo`
/// bits of `value`.
pub open spec fn spec_set_bits_64(x: u64, lo: usize, hi: usize, value: u64) -> u64 {
    if lo == hi {
        x
    } else {
        (x & !(end_mask_64(hi) ^ end_mask_64(lo))) | ((value << lo) & (end_mask_64(hi) ^ end_mask_64(lo)))
    }
}

/// `x` with the bits in positions `[lo, hi)` replaced by the low `hi - lo`
/// bits of `value`.
pub open spec fn spec_set_bits_32(x: u32, lo: usize, hi: usize, value: u64) -> u32 {
    if lo == hi {
        x
    } else {
        (x & !(end_mask_32(hi) ^ end_mask_32(lo))) | (((value as u32) << lo) & (end_mask_32(hi) ^ end_mask_32(lo)))
    }
}

/// `value`, with its bit `num_bits - 1` treated as a sign bit and copied into
/// all positions at and above `num_bits`.
pub open spec fn spec_sign_extend_64(value: u64, num_bits: u64) -> u64 {
    (((value << (64 - num_bits) as u64) as i64) >> (64 - num_bits) as u64) as u64
}

/// A one shifted within range is at least one, so the mask subtraction
/// cannot underflow.
proof fn lemma_shl1_ge1_u64(e: usize)
    by (bit_vector)
    requires
        e < 64,
    ensures
        1u64 << e >= 1,
{
}

/// A one shifted within range is at least one, so the mask subtraction
/// cannot underflow.
proof fn lemma_shl1_ge1_u32(e: usize)
    by (bit_vector)
    requires
        e < 32,
    ensures
        1u32 << e >= 1,
{
}

/// Bit-level operations on an integer word.
pub trait BitSlice: Sized {
    /// The number of bits in the word.
    spec fn width() -> usize;

    /// Bit `pos` of the word.
    spec fn spec_bit(&self, pos: usize) -> bool;

    /// The bits of the word in positions `[lo, hi)`, shifted down to
    /// position 0.
    spec fn spec_bit_range(&self, lo: usize, hi: usize) -> u64;

    /// The word with bit `pos` replaced.
    spec fn spec_with_bit(&self, pos: usize, value: bool) -> Self;

    /// The word with the bits in positions `[lo, hi)` replaced by the low
    /// `hi - lo` bits of `value`.
    spec fn spec_with_bit_range(&self, lo: usize, hi: usize, value: u64) -> Self;

    /// Get the single bit at `pos` (0-based, least significant bit is 0).
    fn bit(&self, pos: usize) -> (b: bool)
        requires
            pos < Self::width(),
        ensures
            b == self.spec_bit(pos),
    ;

    /// Get the bits in `[range.start, range.end)`, shifted down to position 0.
    fn bit_range(&self, range: Range<usize>) -> (r: u64)
        requires
            range.start <= range.end,
            range.end <= Self::width(),
        ensures
            r == self.spec_bit_range(range.start, range.end),
    ;

    /// Set the single bit at `pos` to `value`.
    fn set_bit(&mut self, pos: usize, value: bool)
        requires
            pos < Self::width(),
        ensures
            *final(self) == old(self).spec_with_bit(pos, value),
    ;

    /// Set the bits in `[range.start, range.end)` to the low bits of `value`,
    /// which must fit in the range.
    fn set_bit_range(&mut self, range: Range<usize>, value: u64)
        requires
            range.start <= range.end,
            range.end <= Self::width(),
            value <= spec_bits_64(u64::MAX, 0, (range.end - range.start) as usize),
        ensures
            *final(self) == old(self).spec_with_bit_range(range.start, range.end, value),
    ;
}

impl BitSlice for u64 {
    open spec fn width() -> usize {
        64
    }

    open spec fn spec_bit(&self, pos: usize) -> bool {
        spec_bit_64(*self, pos)
    }

    open spec fn spec_bit_range(&self, lo: usize, hi: usize) -> u64 {
        spec_bits_64(*self, lo, hi)
    }

    open spec fn spec_with_bit(&self, pos: usize, value: bool) -> u64 {
        spec_set_bit_64(*self, pos, value)
    }

    open spec fn spec_with_bit_range(&self, lo: usize, hi: usize, value: u64) -> u64 {
        spec_set_bits_64(*self, lo, hi, value)
    }

    fn bit(&self, pos: usize) -> (b: bool) {
        (*self & (1u64 << pos)) != 0
    }

    fn bit_range(&self, range: Range<usize>) -> (r: u64) {
        if range.start == range.end {
            return 0u64;
        }
        let mask: u64 = if range.end == 64 {
            u64::MAX
        } else {
            proof {
                lemma_shl1_ge1_u64(range.end);
            }
            (1u64 << range.end) - 1
        };
        (*self & mask) >> range.start
    }

    fn set_bit(&mut self, pos: usize, value: bool) {
        if value {
            *self = *self | (1u64 << pos);
        } else {
            *self = *self & !(1u64 << pos);
        }
    }

    fn set_bit_range(&mut self, range: Range<usize>, value: u64) {
        if range.start == range.end {
            return ;
        }
        let hi_mask: u64 = if range.end == 64 {
            u64::MAX
        } else {
            proof {
                lemma_shl1_ge1_u64(range.end);
            }
            (1u64 << range.end) - 1
        };
        let lo_mask: u64 = if range.start == 64 {
            u64::MAX
        } else {
            proof {
                lemma_shl1_ge1_u64(range.start);
            }
            (1u64 << range.start) - 1
        };
        let mask: u64 = hi_mask ^ lo_mask;
        *self = (*self & !mask) | ((value << range.start) & mask);
    }
}

impl BitSlice for u32 {
    open spec fn width() -> usize {
        32
    }

    open spec fn spec_bit(&self, pos: usize) -> bool {
        spec_bit_32(*self, pos)
    }

    open spec fn spec_bit_range(&self, lo: usize, hi: usize) -> u64 {
        spec_bits_32(*self, lo, hi)
    }

    open spec fn spec_with_bit(&self, pos: usize, value: bool) -> u32 {
        spec_set_bit_32(*self, pos, value)
    }

    open spec fn spec_with_bit_range(&self, lo: usize, hi: usize, value: u64) -> u32 {
        spec_set_bits_32(*self, lo, hi, value)
    }

    fn bit(&self, pos: usize) -> (b: bool) {
        (*self & (1u32 << pos)) != 0
    }

    fn bit_range(&self, range: Range<usize>) -> (r: u64) {
        if range.start == range.end {
            return 0u64;
        }
        let mask: u32 = if range.end == 32 {
            u32::MAX
        } else {
            proof {
                lemma_shl1_ge1_u32(range.end);
            }
            (1u32 << range.end) - 1
        };
        ((*self & mask) >> range.start) as u64
    }

    fn set_bit(&mut self, pos: usize, value: bool) {
        if value {
            *self = *self | (1u32 << pos);
        } else {
            *self = *self & !(1u32 << pos);
        }
    }

    fn set_bit_range(&mut self, range: Range<usize>, value: u64) {
        if range.start == range.end {
            return ;
        }
        let hi_mask: u32 = if range.end == 32 {
            u32::MAX
        } else {
            proof {
                lemma_shl1_ge1_u32(range.end);
            }
            (1u32 << range.end) - 1
        };
        let lo_mask: u32 = if range.start == 32 {
            u32::MAX
        } else {
            proof {
                lemma_shl1_ge1_u32(range.start);
            }
            (1u32 << range.start) - 1
        };
        let mask: u32 = hi_mask ^ lo_mask;
        *self = (*self & !mask) | (((value as u32) << range.start) & mask);
    }
}

/// Sign-extend the low `num_bits` bits of `value` to a full 64-bit word by
/// the canonical shift-left-then-arithmetic-shift-right construction.
pub fn sign_extend_64(value: u64, num_bits: u64) -> (r: u64)
    requires
        1 <= num_bits <= 64,
    ensures
        r == spec_sign_extend_64(value, num_bits),
{
    let shift_amount: u64 = 64 - num_bits;
    (((value << shift_amount) as i64) >> shift_amount) as u64
}

} // verus!
