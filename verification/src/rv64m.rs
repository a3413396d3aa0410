//! The M-extension handlers: multiplication keeping the low or high 64 bits
//! of the product with the usual signedness rules, and division and
//! remainder with the architected results for a zero divisor (all-ones or
//! minus-one quotient, dividend remainder) and for signed overflow (minimum
//! quotient, zero remainder). No exception is ever raised.

use vstd::prelude::*;

use crate::bits::sign_extend_64;
use crate::bits::spec_bits_64;
use crate::bits::spec_sign_extend_64;
use crate::bits::BitSlice;
use crate::decode::parse_format_r;
use crate::decode::spec_rd;
use crate::decode::spec_rs1;
use crate::decode::spec_rs2;
use crate::device::MmioDevice;
use crate::emu::reg_val_pub;
use crate::emu::Emulator;
use crate::exception::Exception;
use crate::state::regs_with;

verus! {

/// A wrapping 64-bit product.
pub open spec fn wmul(a: u64, b: u64) -> u64 {
    vstd::wrapping::u64_specs::wrapping_mul(a, b)
}

/// The magnitude of a signed 64-bit value.
pub open spec fn spec_abs_64(a: i64) -> int {
    if a >= 0 {
        a as int
    } else {
        -(a as int)
    }
}

/// The truncated signed quotient, with the single overflowing case
/// (minimum over minus one) wrapping back to the minimum.
pub open spec fn spec_div_signed(a: i64, b: i64) -> i64
    recommends
        b != 0,
{
    let q = spec_abs_64(a) / spec_abs_64(b);
    if (a < 0) != (b < 0) {
        (-q) as i64
    } else if q > i64::MAX {
        i64::MIN
    } else {
        q as i64
    }
}

/// The remainder matching the truncated quotient: its magnitude is the
/// magnitude remainder, its sign the dividend's.
pub open spec fn spec_rem_signed(a: i64, b: i64) -> i64
    recommends
        b != 0,
{
    let m = spec_abs_64(a) % spec_abs_64(b);
    if a < 0 {
        (-m) as i64
    } else {
        m as i64
    }
}

/// The high 64 bits of the signed 128-bit product.
pub open spec fn spec_mulh_val(a: u64, b: u64) -> u64 {
    (((((a as i64) as i128) * ((b as i64) as i128)) as i128) >> 64) as u64
}

/// The high 64 bits of the signed-times-unsigned 128-bit product.
pub open spec fn spec_mulhsu_val(a: u64, b: u64) -> u64 {
    (((((a as i64) as i128) * (b as i128)) as i128) >> 64) as u64
}

/// The high 64 bits of the unsigned 128-bit product.
pub open spec fn spec_mulhu_val(a: u64, b: u64) -> u64 {
    ((((a as u128) * (b as u128)) as u128) >> 64) as u64
}

/// A product of a signed 64-bit value with a signed or unsigned 64-bit
/// value fits in 128 signed bits.
proof fn lemma_product_fits(x: int, y: int)
    by (nonlinear_arith)
    requires
        -0x8000_0000_0000_0000 <= x,
        x <= 0x7FFF_FFFF_FFFF_FFFF,
        -0x8000_0000_0000_0000 <= y,
        y <= 0xFFFF_FFFF_FFFF_FFFF,
    ensures
        -0x8000_0000_0000_0000_0000_0000_0000_0000 <= x * y,
        x * y <= 0x7FFF_FFFF_FFFF_FFFF_FFFF_FFFF_FFFF_FFFF,
{
}

/// A product of two unsigned 64-bit values fits in 128 unsigned bits.
proof fn lemma_product_fits_unsigned(x: int, y: int)
    by (nonlinear_arith)
    requires
        0 <= x,
        x <= 0xFFFF_FFFF_FFFF_FFFF,
        0 <= y,
        y <= 0xFFFF_FFFF_FFFF_FFFF,
    ensures
        0 <= x * y,
        x * y <= 0xFFFF_FFFF_FFFF_FFFF_FFFF_FFFF_FFFF_FFFF,
{
}

/// Compute the truncated signed quotient of two nonzero-divisor operands.
fn div_signed(a: i64, b: i64) -> (q: i64)
    requires
        b != 0,
    ensures
        q == spec_div_signed(a, b),
{
    let ua: u64 = if a >= 0 {
        a as u64
    } else {
        (-(a as i128)) as u64
    };
    let ub: u64 = if b >= 0 {
        b as u64
    } else {
        (-(b as i128)) as u64
    };
    let uq: u64 = ua / ub;
    if (a < 0) != (b < 0) {
        (-(uq as i128)) as i64
    } else if uq >= 0x8000_0000_0000_0000 {
        i64::MIN
    } else {
        uq as i64
    }
}

/// Compute the remainder matching the truncated signed quotient.
fn rem_signed(a: i64, b: i64) -> (m: i64)
    requires
        b != 0,
    ensures
        m == spec_rem_signed(a, b),
{
    let ua: u64 = if a >= 0 {
        a as u64
    } else {
        (-(a as i128)) as u64
    };
    let ub: u64 = if b >= 0 {
        b as u64
    } else {
        (-(b as i128)) as u64
    };
    let um: u64 = ua % ub;
    if a < 0 {
        (-(um as i128)) as i64
    } else {
        um as i64
    }
}

/// The value `mul` writes: the low 64 bits of the product.
pub open spec fn spec_mul_val(s: Seq<u64>, w: u32) -> u64 {
    wmul(s[spec_rs1(w) as int], s[spec_rs2(w) as int])
}

/// The value `div` writes.
pub open spec fn spec_div_val(s: Seq<u64>, w: u32) -> u64 {
    if s[spec_rs2(w) as int] == 0 {
        0xFFFF_FFFF_FFFF_FFFFu64
    } else {
        spec_div_signed(s[spec_rs1(w) as int] as i64, s[spec_rs2(w) as int] as i64) as u64
    }
}

/// The value `divu` writes.
pub open spec fn spec_divu_val(s: Seq<u64>, w: u32) -> u64 {
    if s[spec_rs2(w) as int] == 0 {
        u64::MAX
    } else {
        (s[spec_rs1(w) as int] / s[spec_rs2(w) as int]) as u64
    }
}

/// The value `rem` writes.
pub open spec fn spec_rem_val(s: Seq<u64>, w: u32) -> u64 {
    if s[spec_rs2(w) as int] == 0 {
        s[spec_rs1(w) as int]
    } else {
        spec_rem_signed(s[spec_rs1(w) as int] as i64, s[spec_rs2(w) as int] as i64) as u64
    }
}

/// The value `remu` writes.
pub open spec fn spec_remu_val(s: Seq<u64>, w: u32) -> u64 {
    if s[spec_rs2(w) as int] == 0 {
        s[spec_rs1(w) as int]
    } else {
        (s[spec_rs1(w) as int] % s[spec_rs2(w) as int]) as u64
    }
}

/// The value `mulw` writes: the 32-bit product, sign-extended.
pub open spec fn spec_mulw_val(s: Seq<u64>, w: u32) -> u64 {
    ((vstd::wrapping::i32_specs::wrapping_mul(
        spec_bits_64(s[spec_rs1(w) as int], 0, 32) as i32,
        spec_bits_64(s[spec_rs2(w) as int], 0, 32) as i32,
    ) as i64) as u64)
}

/// The value `divw` writes: the truncated 32-bit quotient, sign-extended;
/// all ones on a zero divisor.
pub open spec fn spec_divw_val(s: Seq<u64>, w: u32) -> u64 {
    let l = spec_bits_64(s[spec_rs1(w) as int], 0, 32) as i32;
    let r = spec_bits_64(s[spec_rs2(w) as int], 0, 32) as i32;
    if r == 0 {
        u64::MAX
    } else {
        spec_sign_extend_64(spec_bits_64(spec_div_signed(l as i64, r as i64) as u64, 0, 32), 32)
    }
}

/// The value `divuw` writes: the unsigned 32-bit quotient, sign-extended;
/// all ones on a zero divisor.
pub open spec fn spec_divuw_val(s: Seq<u64>, w: u32) -> u64 {
    let l = spec_bits_64(s[spec_rs1(w) as int], 0, 32) as u32;
    let r = spec_bits_64(s[spec_rs2(w) as int], 0, 32) as u32;
    if r == 0 {
        u64::MAX
    } else {
        spec_sign_extend_64((l / r) as u64, 32)
    }
}

/// The value `remw` writes: the 32-bit remainder, sign-extended; the
/// dividend on a zero divisor.
pub open spec fn spec_remw_val(s: Seq<u64>, w: u32) -> u64 {
    let l = spec_bits_64(s[spec_rs1(w) as int], 0, 32) as i32;
    let r = spec_bits_64(s[spec_rs2(w) as int], 0, 32) as i32;
    if r == 0 {
        spec_sign_extend_64(spec_bits_64(s[spec_rs1(w) as int], 0, 32), 32)
    } else {
        spec_sign_extend_64(spec_bits_64(spec_rem_signed(l as i64, r as i64) as u64, 0, 32), 32)
    }
}

/// The value `remuw` writes: the unsigned 32-bit remainder, sign-extended;
/// the dividend on a zero divisor.
pub open spec fn spec_remuw_val(s: Seq<u64>, w: u32) -> u64 {
    let l = spec_bits_64(s[spec_rs1(w) as int], 0, 32) as u32;
    let r = spec_bits_64(s[spec_rs2(w) as int], 0, 32) as u32;
    if r == 0 {
        spec_sign_extend_64(l as u64, 32)
    } else {
        spec_sign_extend_64((l % r) as u64, 32)
    }
}

impl<D: MmioDevice> Emulator<D> {
    /// Execute `mul`.
    pub fn op_mul(&mut self, inst: u32, pc: u64) -> (r: Result<(), Exception>)
        requires
            old(self).wf(),
        ensures
            final(self).wf(),
            op_mul_effect(old(self), final(self), r, inst, pc),
    {
        let r0 = parse_format_r(inst);
        let lhs = reg_val_pub(&self.state, r0.rs1);
        let rhs = reg_val_pub(&self.state, r0.rs2);
        let _ = self.state.set_reg(r0.rd, lhs.wrapping_mul(rhs));
        Ok(())
    }

    /// Execute `mulh`.
    pub fn op_mulh(&mut self, inst: u32, pc: u64) -> (r: Result<(), Exception>)
        requires
            old(self).wf(),
        ensures
            final(self).wf(),
            op_mulh_effect(old(self), final(self), r, inst, pc),
    {
        let r0 = parse_format_r(inst);
        let lhs = reg_val_pub(&self.state, r0.rs1);
        let rhs = reg_val_pub(&self.state, r0.rs2);
        proof {
            lemma_product_fits((lhs as i64) as int, (rhs as i64) as int);
        }
        let p: i128 = ((lhs as i64) as i128) * ((rhs as i64) as i128);
        let _ = self.state.set_reg(r0.rd, (p >> 64) as u64);
        Ok(())
    }

    /// Execute `mulhsu`.
    pub fn op_mulhsu(&mut self, inst: u32, pc: u64) -> (r: Result<(), Exception>)
        requires
            old(self).wf(),
        ensures
            final(self).wf(),
            op_mulhsu_effect(old(self), final(self), r, inst, pc),
    {
        let r0 = parse_format_r(inst);
        let lhs = reg_val_pub(&self.state, r0.rs1);
        let rhs = reg_val_pub(&self.state, r0.rs2);
        proof {
            lemma_product_fits((lhs as i64) as int, rhs as int);
        }
        let p: i128 = ((lhs as i64) as i128) * (rhs as i128);
        let _ = self.state.set_reg(r0.rd, (p >> 64) as u64);
        Ok(())
    }

    /// Execute `mulhu`.
    pub fn op_mulhu(&mut self, inst: u32, pc: u64) -> (r: Result<(), Exception>)
        requires
            old(self).wf(),
        ensures
            final(self).wf(),
            op_mulhu_effect(old(self), final(self), r, inst, pc),
    {
        let r0 = parse_format_r(inst);
        let lhs = reg_val_pub(&self.state, r0.rs1);
        let rhs = reg_val_pub(&self.state, r0.rs2);
        proof {
            lemma_product_fits_unsigned(lhs as int, rhs as int);
        }
        let p: u128 = (lhs as u128) * (rhs as u128);
        let _ = self.state.set_reg(r0.rd, (p >> 64) as u64);
        Ok(())
    }

    /// Execute `div`.
    pub fn op_div(&mut self, inst: u32, pc: u64) -> (r: Result<(), Exception>)
        requires
            old(self).wf(),
        ensures
            final(self).wf(),
            op_div_effect(old(self), final(self), r, inst, pc),
    {
        let r0 = parse_format_r(inst);
        let lhs = reg_val_pub(&self.state, r0.rs1);
        let rhs = reg_val_pub(&self.state, r0.rs2);
        if rhs == 0 {
            let _ = self.state.set_reg(r0.rd, 0xFFFF_FFFF_FFFF_FFFF);
            return Ok(());
        }
        proof {
            assert(rhs as i64 != 0) by (bit_vector)
                requires
                    rhs != 0u64,
            ;
        }
        let q = div_signed(lhs as i64, rhs as i64);
        let _ = self.state.set_reg(r0.rd, q as u64);
        Ok(())
    }

    /// Execute `divu`.
    pub fn op_divu(&mut self, inst: u32, pc: u64) -> (r: Result<(), Exception>)
        requires
            old(self).wf(),
        ensures
            final(self).wf(),
            op_divu_effect(old(self), final(self), r, inst, pc),
    {
        let r0 = parse_format_r(inst);
        let lhs = reg_val_pub(&self.state, r0.rs1);
        let rhs = reg_val_pub(&self.state, r0.rs2);
        if rhs == 0 {
            let _ = self.state.set_reg(r0.rd, u64::MAX);
            return Ok(());
        }
        let _ = self.state.set_reg(r0.rd, lhs / rhs);
        Ok(())
    }

    /// Execute `rem`.
    pub fn op_rem(&mut self, inst: u32, pc: u64) -> (r: Result<(), Exception>)
        requires
            old(self).wf(),
        ensures
            final(self).wf(),
            op_rem_effect(old(self), final(self), r, inst, pc),
    {
        let r0 = parse_format_r(inst);
        let lhs = reg_val_pub(&self.state, r0.rs1);
        let rhs = reg_val_pub(&self.state, r0.rs2);
        if rhs == 0 {
            let _ = self.state.set_reg(r0.rd, lhs);
            return Ok(());
        }
        proof {
            assert(rhs as i64 != 0) by (bit_vector)
                requires
                    rhs != 0u64,
            ;
        }
        let m = rem_signed(lhs as i64, rhs as i64);
        let _ = self.state.set_reg(r0.rd, m as u64);
        Ok(())
    }

    /// Execute `remu`.
    pub fn op_remu(&mut self, inst: u32, pc: u64) -> (r: Result<(), Exception>)
        requires
            old(self).wf(),
        ensures
            final(self).wf(),
            op_remu_effect(old(self), final(self), r, inst, pc),
    {
        let r0 = parse_format_r(inst);
        let lhs = reg_val_pub(&self.state, r0.rs1);
        let rhs = reg_val_pub(&self.state, r0.rs2);
        if rhs == 0 {
            let _ = self.state.set_reg(r0.rd, lhs);
            return Ok(());
        }
        let _ = self.state.set_reg(r0.rd, lhs % rhs);
        Ok(())
    }

    /// Execute `mulw`.
    pub fn op_mulw(&mut self, inst: u32, pc: u64) -> (r: Result<(), Exception>)
        requires
            old(self).wf(),
        ensures
            final(self).wf(),
            op_mulw_effect(old(self), final(self), r, inst, pc),
    {
        let r0 = parse_format_r(inst);
        let lhs = reg_val_pub(&self.state, r0.rs1);
        let rhs = reg_val_pub(&self.state, r0.rs2);
        let l32 = (lhs.bit_range(0usize..32usize)) as i32;
        let r32 = (rhs.bit_range(0usize..32usize)) as i32;
        let p = l32.wrapping_mul(r32);
        let _ = self.state.set_reg(r0.rd, (p as i64) as u64);
        Ok(())
    }

    /// Execute `divw`.
    pub fn op_divw(&mut self, inst: u32, pc: u64) -> (r: Result<(), Exception>)
        requires
            old(self).wf(),
        ensures
            final(self).wf(),
            op_divw_effect(old(self), final(self), r, inst, pc),
    {
        let r0 = parse_format_r(inst);
        let lhs = reg_val_pub(&self.state, r0.rs1);
        let rhs = reg_val_pub(&self.state, r0.rs2);
        let l32 = (lhs.bit_range(0usize..32usize)) as i32;
        let r32 = (rhs.bit_range(0usize..32usize)) as i32;
        if r32 == 0 {
            let _ = self.state.set_reg(r0.rd, u64::MAX);
            return Ok(());
        }
        let q = div_signed(l32 as i64, r32 as i64);
        let low = (q as u64).bit_range(0usize..32usize);
        let _ = self.state.set_reg(r0.rd, sign_extend_64(low, 32));
        Ok(())
    }

    /// Execute `divuw`.
    pub fn op_divuw(&mut self, inst: u32, pc: u64) -> (r: Result<(), Exception>)
        requires
            old(self).wf(),
        ensures
            final(self).wf(),
            op_divuw_effect(old(self), final(self), r, inst, pc),
    {
        let r0 = parse_format_r(inst);
        let lhs = reg_val_pub(&self.state, r0.rs1);
        let rhs = reg_val_pub(&self.state, r0.rs2);
        let l32 = (lhs.bit_range(0usize..32usize)) as u32;
        let r32 = (rhs.bit_range(0usize..32usize)) as u32;
        if r32 == 0 {
            let _ = self.state.set_reg(r0.rd, u64::MAX);
            return Ok(());
        }
        let q = l32 / r32;
        let _ = self.state.set_reg(r0.rd, sign_extend_64(q as u64, 32));
        Ok(())
    }

    /// Execute `remw`.
    pub fn op_remw(&mut self, inst: u32, pc: u64) -> (r: Result<(), Exception>)
        requires
            old(self).wf(),
        ensures
            final(self).wf(),
            op_remw_effect(old(self), final(self), r, inst, pc),
    {
        let r0 = parse_format_r(inst);
        let lhs = reg_val_pub(&self.state, r0.rs1);
        let rhs = reg_val_pub(&self.state, r0.rs2);
        let l32 = (lhs.bit_range(0usize..32usize)) as i32;
        let r32 = (rhs.bit_range(0usize..32usize)) as i32;
        if r32 == 0 {
            let low = lhs.bit_range(0usize..32usize);
            let _ = self.state.set_reg(r0.rd, sign_extend_64(low, 32));
            return Ok(());
        }
        let m = rem_signed(l32 as i64, r32 as i64);
        let low = (m as u64).bit_range(0usize..32usize);
        let _ = self.state.set_reg(r0.rd, sign_extend_64(low, 32));
        Ok(())
    }

    /// Execute `remuw`.
    pub fn op_remuw(&mut self, inst: u32, pc: u64) -> (r: Result<(), Exception>)
        requires
            old(self).wf(),
        ensures
            final(self).wf(),
            op_remuw_effect(old(self), final(self), r, inst, pc),
    {
        let r0 = parse_format_r(inst);
        let lhs = reg_val_pub(&self.state, r0.rs1);
        let rhs = reg_val_pub(&self.state, r0.rs2);
        let l32 = (lhs.bit_range(0usize..32usize)) as u32;
        let r32 = (rhs.bit_range(0usize..32usize)) as u32;
        if r32 == 0 {
            let _ = self.state.set_reg(r0.rd, sign_extend_64(l32 as u64, 32));
            return Ok(());
        }
        let m = l32 % r32;
        let _ = self.state.set_reg(r0.rd, sign_extend_64(m as u64, 32));
        Ok(())
    }
}

/// Exactly what `mul`'s handler contract states, as a relation between
/// the emulator before and after, for lifting through the execution loop.
pub open spec fn op_mul_effect<D>(
    pre: &Emulator<D>,
    post: &Emulator<D>,
    r: Result<(), Exception>,
    inst: u32,
    pc: u64,
) -> bool {
    &&& (r is Ok)
    &&& (post.regs() == regs_with(
                &pre.state,
                spec_rd(inst) as int,
                spec_mul_val(pre.regs(), inst),
            ))
    &&& (Emulator::<D>::same_but_regs(pre, post))
}

/// Exactly what `mulh`'s handler contract states, as a relation between
/// the emulator before and after, for lifting through the execution loop.
pub open spec fn op_mulh_effect<D>(
    pre: &Emulator<D>,
    post: &Emulator<D>,
    r: Result<(), Exception>,
    inst: u32,
    pc: u64,
) -> bool {
    &&& (r is Ok)
    &&& (post.regs() == regs_with(
                &pre.state,
                spec_rd(inst) as int,
                spec_mulh_val(
                    pre.regs()[spec_rs1(inst) as int],
                    pre.regs()[spec_rs2(inst) as int],
                ),
            ))
    &&& (Emulator::<D>::same_but_regs(pre, post))
}

/// Exactly what `mulhsu`'s handler contract states, as a relation between
/// the emulator before and after, for lifting through the execution loop.
pub open spec fn op_mulhsu_effect<D>(
    pre: &Emulator<D>,
    post: &Emulator<D>,
    r: Result<(), Exception>,
    inst: u32,
    pc: u64,
) -> bool {
    &&& (r is Ok)
    &&& (post.regs() == regs_with(
                &pre.state,
                spec_rd(inst) as int,
                spec_mulhsu_val(
                    pre.regs()[spec_rs1(inst) as int],
                    pre.regs()[spec_rs2(inst) as int],
                ),
            ))
    &&& (Emulator::<D>::same_but_regs(pre, post))
}

/// Exactly what `mulhu`'s handler contract states, as a relation between
/// the emulator before and after, for lifting through the execution loop.
pub open spec fn op_mulhu_effect<D>(
    pre: &Emulator<D>,
    post: &Emulator<D>,
    r: Result<(), Exception>,
    inst: u32,
    pc: u64,
) -> bool {
    &&& (r is Ok)
    &&& (post.regs() == regs_with(
                &pre.state,
                spec_rd(inst) as int,
                spec_mulhu_val(
                    pre.regs()[spec_rs1(inst) as int],
                    pre.regs()[spec_rs2(inst) as int],
                ),
            ))
    &&& (Emulator::<D>::same_but_regs(pre, post))
}

/// Exactly what `div`'s handler contract states, as a relation between
/// the emulator before and after, for lifting through the execution loop.
pub open spec fn op_div_effect<D>(
    pre: &Emulator<D>,
    post: &Emulator<D>,
    r: Result<(), Exception>,
    inst: u32,
    pc: u64,
) -> bool {
    &&& (r is Ok)
    &&& (post.regs() == regs_with(
                &pre.state,
                spec_rd(inst) as int,
                spec_div_val(pre.regs(), inst),
            ))
    &&& (Emulator::<D>::same_but_regs(pre, post))
}

/// Exactly what `divu`'s handler contract states, as a relation between
/// the emulator before and after, for lifting through the execution loop.
pub open spec fn op_divu_effect<D>(
    pre: &Emulator<D>,
    post: &Emulator<D>,
    r: Result<(), Exception>,
    inst: u32,
    pc: u64,
) -> bool {
    &&& (r is Ok)
    &&& (post.regs() == regs_with(
                &pre.state,
                spec_rd(inst) as int,
                spec_divu_val(pre.regs(), inst),
            ))
    &&& (Emulator::<D>::same_but_regs(pre, post))
}

/// Exactly what `rem`'s handler contract states, as a relation between
/// the emulator before and after, for lifting through the execution loop.
pub open spec fn op_rem_effect<D>(
    pre: &Emulator<D>,
    post: &Emulator<D>,
    r: Result<(), Exception>,
    inst: u32,
    pc: u64,
) -> bool {
    &&& (r is Ok)
    &&& (post.regs() == regs_with(
                &pre.state,
                spec_rd(inst) as int,
                spec_rem_val(pre.regs(), inst),
            ))
    &&& (Emulator::<D>::same_but_regs(pre, post))
}

/// Exactly what `remu`'s handler contract states, as a relation between
/// the emulator before and after, for lifting through the execution loop.
pub open spec fn op_remu_effect<D>(
    pre: &Emulator<D>,
    post: &Emulator<D>,
    r: Result<(), Exception>,
    inst: u32,
    pc: u64,
) -> bool {
    &&& (r is Ok)
    &&& (post.regs() == regs_with(
                &pre.state,
                spec_rd(inst) as int,
                spec_remu_val(pre.regs(), inst),
            ))
    &&& (Emulator::<D>::same_but_regs(pre, post))
}

/// Exactly what `mulw`'s handler contract states, as a relation between
/// the emulator before and after, for lifting through the execution loop.
pub open spec fn op_mulw_effect<D>(
    pre: &Emulator<D>,
    post: &Emulator<D>,
    r: Result<(), Exception>,
    inst: u32,
    pc: u64,
) -> bool {
    &&& (r is Ok)
    &&& (post.regs() == regs_with(
                &pre.state,
                spec_rd(inst) as int,
                spec_mulw_val(pre.regs(), inst),
            ))
    &&& (Emulator::<D>::same_but_regs(pre, post))
}

/// Exactly what `divw`'s handler contract states, as a relation between
/// the emulator before and after, for lifting through the execution loop.
pub open spec fn op_divw_effect<D>(
    pre: &Emulator<D>,
    post: &Emulator<D>,
    r: Result<(), Exception>,
    inst: u32,
    pc: u64,
) -> bool {
    &&& (r is Ok)
    &&& (post.regs() == regs_with(
                &pre.state,
                spec_rd(inst) as int,
                spec_divw_val(pre.regs(), inst),
            ))
    &&& (Emulator::<D>::same_but_regs(pre, post))
}

/// Exactly what `divuw`'s handler contract states, as a relation between
/// the emulator before and after, for lifting through the execution loop.
pub open spec fn op_divuw_effect<D>(
    pre: &Emulator<D>,
    post: &Emulator<D>,
    r: Result<(), Exception>,
    inst: u32,
    pc: u64,
) -> bool {
    &&& (r is Ok)
    &&& (post.regs() == regs_with(
                &pre.state,
                spec_rd(inst) as int,
                spec_divuw_val(pre.regs(), inst),
            ))
    &&& (Emulator::<D>::same_but_regs(pre, post))
}

/// Exactly what `remw`'s handler contract states, as a relation between
/// the emulator before and after, for lifting through the execution loop.
pub open spec fn op_remw_effect<D>(
    pre: &Emulator<D>,
    post: &Emulator<D>,
    r: Result<(), Exception>,
    inst: u32,
    pc: u64,
) -> bool {
    &&& (r is Ok)
    &&& (post.regs() == regs_with(
                &pre.state,
                spec_rd(inst) as int,
                spec_remw_val(pre.regs(), inst),
            ))
    &&& (Emulator::<D>::same_but_regs(pre, post))
}

/// Exactly what `remuw`'s handler contract states, as a relation between
/// the emulator before and after, for lifting through the execution loop.
pub open spec fn op_remuw_effect<D>(
    pre: &Emulator<D>,
    post: &Emulator<D>,
    r: Result<(), Exception>,
    inst: u32,
    pc: u64,
) -> bool {
    &&& (r is Ok)
    &&& (post.regs() == regs_with(
                &pre.state,
                spec_rd(inst) as int,
                spec_remuw_val(pre.regs(), inst),
            ))
    &&& (Emulator::<D>::same_but_regs(pre, post))
}

} // verus!
