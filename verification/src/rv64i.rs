//! The base integer instruction handlers. Each one parses its operand
//! format, reads registers, and effects exactly what its contract states:
//! 64-bit wraparound arithmetic, W-variants on the low 32 bits with the
//! 32-bit result sign-extended, shift counts masked to 6 bits (5 for the W
//! forms), loads and stores through the bus at `rs1 + immediate`, and
//! branches that retarget `npc` or record a misalignment exception.

use vstd::prelude::*;
use vstd::bytes::*;

use crate::bits::sign_extend_64;
use crate::bits::spec_bits_64;
use crate::bits::spec_sign_extend_64;
use crate::bits::BitSlice;
use crate::decode::parse_format_b;
use crate::decode::parse_format_i;
use crate::decode::parse_format_j;
use crate::decode::parse_format_r;
use crate::decode::parse_format_s;
use crate::decode::parse_format_u;
use crate::decode::spec_imm_b;
use crate::decode::spec_imm_i;
use crate::decode::spec_imm_j;
use crate::decode::spec_imm_s;
use crate::decode::spec_imm_u;
use crate::decode::spec_rd;
use crate::decode::spec_rs1;
use crate::decode::spec_rs2;
use crate::decode::is_inst_addr_misaligned;
use crate::device::MmioDevice;
use crate::emu::wadd;
use crate::emu::reg_val_pub;
use crate::emu::Emulator;
use crate::exception::Exception;
use crate::mem::spec_store;
use crate::state::regs_with;
use crate::state::Event;

verus! {

/// A wrapping 64-bit difference.
pub open spec fn wsub(a: u64, b: u64) -> u64 {
    vstd::wrapping::u64_specs::wrapping_sub(a, b)
}

/// Shift counts masked to the operand width are valid shift amounts.
proof fn lemma_shamt(x: u64)
    by (bit_vector)
    ensures
        x & 0x3F < 64,
        x & 0x1F < 32,
{
}

/// The value the `lui` instruction writes to its destination register.
pub open spec fn spec_lui_val(w: u32) -> u64 {
    spec_imm_u(w)
}

/// The value the `auipc` instruction writes to its destination register.
pub open spec fn spec_auipc_val(w: u32, pc: u64) -> u64 {
    wadd(pc, spec_imm_u(w))
}

/// The value the `addi` instruction writes to its destination register.
pub open spec fn spec_addi_val(s: Seq<u64>, w: u32) -> u64 {
    wadd(s[spec_rs1(w) as int], spec_imm_i(w))
}

/// The value the `slti` instruction writes to its destination register.
pub open spec fn spec_slti_val(s: Seq<u64>, w: u32) -> u64 {
    if (s[spec_rs1(w) as int] as i64) < (spec_imm_i(w) as i64) { 1u64 } else { 0u64 }
}

/// The value the `sltiu` instruction writes to its destination register.
pub open spec fn spec_sltiu_val(s: Seq<u64>, w: u32) -> u64 {
    if s[spec_rs1(w) as int] < spec_imm_i(w) { 1u64 } else { 0u64 }
}

/// The value the `xori` instruction writes to its destination register.
pub open spec fn spec_xori_val(s: Seq<u64>, w: u32) -> u64 {
    s[spec_rs1(w) as int] ^ spec_imm_i(w)
}

/// The value the `ori` instruction writes to its destination register.
pub open spec fn spec_ori_val(s: Seq<u64>, w: u32) -> u64 {
    s[spec_rs1(w) as int] | spec_imm_i(w)
}

/// The value the `andi` instruction writes to its destination register.
pub open spec fn spec_andi_val(s: Seq<u64>, w: u32) -> u64 {
    s[spec_rs1(w) as int] & spec_imm_i(w)
}

/// The value the `slli` instruction writes to its destination register.
pub open spec fn spec_slli_val(s: Seq<u64>, w: u32) -> u64 {
    s[spec_rs1(w) as int] << (spec_imm_i(w) & 0x3F)
}

/// The value the `srli` instruction writes to its destination register.
pub open spec fn spec_srli_val(s: Seq<u64>, w: u32) -> u64 {
    s[spec_rs1(w) as int] >> (spec_imm_i(w) & 0x3F)
}

/// The value the `srai` instruction writes to its destination register.
pub open spec fn spec_srai_val(s: Seq<u64>, w: u32) -> u64 {
    ((s[spec_rs1(w) as int] as i64) >> (spec_imm_i(w) & 0x3F)) as u64
}

/// The value the `add` instruction writes to its destination register.
pub open spec fn spec_add_val(s: Seq<u64>, w: u32) -> u64 {
    wadd(s[spec_rs1(w) as int], s[spec_rs2(w) as int])
}

/// The value the `sub` instruction writes to its destination register.
pub open spec fn spec_sub_val(s: Seq<u64>, w: u32) -> u64 {
    wsub(s[spec_rs1(w) as int], s[spec_rs2(w) as int])
}

/// The value the `sll` instruction writes to its destination register.
pub open spec fn spec_sll_val(s: Seq<u64>, w: u32) -> u64 {
    s[spec_rs1(w) as int] << (s[spec_rs2(w) as int] & 0x3F)
}

/// The value the `slt` instruction writes to its destination register.
pub open spec fn spec_slt_val(s: Seq<u64>, w: u32) -> u64 {
    if (s[spec_rs1(w) as int] as i64) < (s[spec_rs2(w) as int] as i64) { 1u64 } else { 0u64 }
}

/// The value the `sltu` instruction writes to its destination register.
pub open spec fn spec_sltu_val(s: Seq<u64>, w: u32) -> u64 {
    if s[spec_rs1(w) as int] < s[spec_rs2(w) as int] { 1u64 } else { 0u64 }
}

/// The value the `xor` instruction writes to its destination register.
pub open spec fn spec_xor_val(s: Seq<u64>, w: u32) -> u64 {
    s[spec_rs1(w) as int] ^ s[spec_rs2(w) as int]
}

/// The value the `srl` instruction writes to its destination register.
pub open spec fn spec_srl_val(s: Seq<u64>, w: u32) -> u64 {
    s[spec_rs1(w) as int] >> (s[spec_rs2(w) as int] & 0x3F)
}

/// The value the `sra` instruction writes to its destination register.
pub open spec fn spec_sra_val(s: Seq<u64>, w: u32) -> u64 {
    ((s[spec_rs1(w) as int] as i64) >> (s[spec_rs2(w) as int] & 0x3F)) as u64
}

/// The value the `or` instruction writes to its destination register.
pub open spec fn spec_or_val(s: Seq<u64>, w: u32) -> u64 {
    s[spec_rs1(w) as int] | s[spec_rs2(w) as int]
}

/// The value the `and` instruction writes to its destination register.
pub open spec fn spec_and_val(s: Seq<u64>, w: u32) -> u64 {
    s[spec_rs1(w) as int] & s[spec_rs2(w) as int]
}

/// The value the `addiw` instruction writes to its destination register.
pub open spec fn spec_addiw_val(s: Seq<u64>, w: u32) -> u64 {
    spec_sign_extend_64(spec_bits_64(wadd(s[spec_rs1(w) as int], spec_imm_i(w)), 0, 32), 32)
}

/// The value the `slliw` instruction writes to its destination register.
pub open spec fn spec_slliw_val(s: Seq<u64>, w: u32) -> u64 {
    spec_sign_extend_64(spec_bits_64(s[spec_rs1(w) as int] << (spec_imm_i(w) & 0x1F), 0, 32), 32)
}

/// The value the `srliw` instruction writes to its destination register.
pub open spec fn spec_srliw_val(s: Seq<u64>, w: u32) -> u64 {
    spec_sign_extend_64(spec_bits_64(s[spec_rs1(w) as int], 0, 32) >> (spec_imm_i(w) & 0x1F), 32)
}

/// The value the `sraiw` instruction writes to its destination register.
pub open spec fn spec_sraiw_val(s: Seq<u64>, w: u32) -> u64 {
    spec_sign_extend_64((((spec_bits_64(s[spec_rs1(w) as int], 0, 32) as i32) >> (spec_imm_i(w) & 0x1F)) as u32) as u64, 32)
}

/// The value the `addw` instruction writes to its destination register.
pub open spec fn spec_addw_val(s: Seq<u64>, w: u32) -> u64 {
    spec_sign_extend_64(wadd(spec_bits_64(s[spec_rs1(w) as int], 0, 32), spec_bits_64(s[spec_rs2(w) as int], 0, 32)), 32)
}

/// The value the `subw` instruction writes to its destination register.
pub open spec fn spec_subw_val(s: Seq<u64>, w: u32) -> u64 {
    spec_sign_extend_64(wsub(spec_bits_64(s[spec_rs1(w) as int], 0, 32), spec_bits_64(s[spec_rs2(w) as int], 0, 32)), 32)
}

/// The value the `sllw` instruction writes to its destination register.
pub open spec fn spec_sllw_val(s: Seq<u64>, w: u32) -> u64 {
    spec_sign_extend_64(spec_bits_64(s[spec_rs1(w) as int] << (s[spec_rs2(w) as int] & 0x1F), 0, 32), 32)
}

/// The value the `srlw` instruction writes to its destination register.
pub open spec fn spec_srlw_val(s: Seq<u64>, w: u32) -> u64 {
    spec_sign_extend_64(spec_bits_64(spec_bits_64(s[spec_rs1(w) as int], 0, 32) >> (s[spec_rs2(w) as int] & 0x1F), 0, 32), 32)
}

/// The value the `sraw` instruction writes to its destination register.
pub open spec fn spec_sraw_val(s: Seq<u64>, w: u32) -> u64 {
    spec_sign_extend_64((((spec_bits_64(s[spec_rs1(w) as int], 0, 32) as i32) >> (s[spec_rs2(w) as int] & 0x1F)) as u32) as u64, 32)
}

impl<D: MmioDevice> Emulator<D> {
    /// Execute `lui`.
    pub fn op_lui(&mut self, inst: u32, pc: u64) -> (r: Result<(), Exception>)
        requires
            old(self).wf(),
        ensures
            final(self).wf(),
            op_lui_effect(old(self), final(self), r, inst, pc),
    {
        let u = parse_format_u(inst);
        let v = u.imm;
        let _ = self.state.set_reg(u.rd, v);
        Ok(())
    }

    /// Execute `auipc`.
    pub fn op_auipc(&mut self, inst: u32, pc: u64) -> (r: Result<(), Exception>)
        requires
            old(self).wf(),
        ensures
            final(self).wf(),
            op_auipc_effect(old(self), final(self), r, inst, pc),
    {
        let u = parse_format_u(inst);
        let v = pc.wrapping_add(u.imm);
        let _ = self.state.set_reg(u.rd, v);
        Ok(())
    }

    /// Execute `addi`.
    pub fn op_addi(&mut self, inst: u32, pc: u64) -> (r: Result<(), Exception>)
        requires
            old(self).wf(),
        ensures
            final(self).wf(),
            op_addi_effect(old(self), final(self), r, inst, pc),
    {
        let i = parse_format_i(inst);
        let lhs = reg_val_pub(&self.state, i.rs1);
        let v = lhs.wrapping_add(i.imm);
        let _ = self.state.set_reg(i.rd, v);
        Ok(())
    }

    /// Execute `slti`.
    pub fn op_slti(&mut self, inst: u32, pc: u64) -> (r: Result<(), Exception>)
        requires
            old(self).wf(),
        ensures
            final(self).wf(),
            op_slti_effect(old(self), final(self), r, inst, pc),
    {
        let i = parse_format_i(inst);
        let lhs = reg_val_pub(&self.state, i.rs1);
        let v: u64 = if (lhs as i64) < (i.imm as i64) { 1 } else { 0 };
        let _ = self.state.set_reg(i.rd, v);
        Ok(())
    }

    /// Execute `sltiu`.
    pub fn op_sltiu(&mut self, inst: u32, pc: u64) -> (r: Result<(), Exception>)
        requires
            old(self).wf(),
        ensures
            final(self).wf(),
            op_sltiu_effect(old(self), final(self), r, inst, pc),
    {
        let i = parse_format_i(inst);
        let lhs = reg_val_pub(&self.state, i.rs1);
        let v: u64 = if lhs < i.imm { 1 } else { 0 };
        let _ = self.state.set_reg(i.rd, v);
        Ok(())
    }

    /// Execute `xori`.
    pub fn op_xori(&mut self, inst: u32, pc: u64) -> (r: Result<(), Exception>)
        requires
            old(self).wf(),
        ensures
            final(self).wf(),
            op_xori_effect(old(self), final(self), r, inst, pc),
    {
        let i = parse_format_i(inst);
        let lhs = reg_val_pub(&self.state, i.rs1);
        let v = lhs ^ i.imm;
        let _ = self.state.set_reg(i.rd, v);
        Ok(())
    }

    /// Execute `ori`.
    pub fn op_ori(&mut self, inst: u32, pc: u64) -> (r: Result<(), Exception>)
        requires
            old(self).wf(),
        ensures
            final(self).wf(),
            op_ori_effect(old(self), final(self), r, inst, pc),
    {
        let i = parse_format_i(inst);
        let lhs = reg_val_pub(&self.state, i.rs1);
        let v = lhs | i.imm;
        let _ = self.state.set_reg(i.rd, v);
        Ok(())
    }

    /// Execute `andi`.
    pub fn op_andi(&mut self, inst: u32, pc: u64) -> (r: Result<(), Exception>)
        requires
            old(self).wf(),
        ensures
            final(self).wf(),
            op_andi_effect(old(self), final(self), r, inst, pc),
    {
        let i = parse_format_i(inst);
        let lhs = reg_val_pub(&self.state, i.rs1);
        let v = lhs & i.imm;
        let _ = self.state.set_reg(i.rd, v);
        Ok(())
    }

    /// Execute `slli`.
    pub fn op_slli(&mut self, inst: u32, pc: u64) -> (r: Result<(), Exception>)
        requires
            old(self).wf(),
        ensures
            final(self).wf(),
            op_slli_effect(old(self), final(self), r, inst, pc),
    {
        let i = parse_format_i(inst);
        let lhs = reg_val_pub(&self.state, i.rs1);
        let shamt = i.imm & 0x3F;
        proof { lemma_shamt(i.imm); }
        let v = lhs << shamt;
        let _ = self.state.set_reg(i.rd, v);
        Ok(())
    }

    /// Execute `srli`.
    pub fn op_srli(&mut self, inst: u32, pc: u64) -> (r: Result<(), Exception>)
        requires
            old(self).wf(),
        ensures
            final(self).wf(),
            op_srli_effect(old(self), final(self), r, inst, pc),
    {
        let i = parse_format_i(inst);
        let lhs = reg_val_pub(&self.state, i.rs1);
        let shamt = i.imm & 0x3F;
        proof { lemma_shamt(i.imm); }
        let v = lhs >> shamt;
        let _ = self.state.set_reg(i.rd, v);
        Ok(())
    }

    /// Execute `srai`.
    pub fn op_srai(&mut self, inst: u32, pc: u64) -> (r: Result<(), Exception>)
        requires
            old(self).wf(),
        ensures
            final(self).wf(),
            op_srai_effect(old(self), final(self), r, inst, pc),
    {
        let i = parse_format_i(inst);
        let lhs = reg_val_pub(&self.state, i.rs1);
        let shamt = i.imm & 0x3F;
        proof { lemma_shamt(i.imm); }
        let v = ((lhs as i64) >> shamt) as u64;
        let _ = self.state.set_reg(i.rd, v);
        Ok(())
    }

    /// Execute `add`.
    pub fn op_add(&mut self, inst: u32, pc: u64) -> (r: Result<(), Exception>)
        requires
            old(self).wf(),
        ensures
            final(self).wf(),
            op_add_effect(old(self), final(self), r, inst, pc),
    {
        let r0 = parse_format_r(inst);
        let lhs = reg_val_pub(&self.state, r0.rs1);
        let rhs = reg_val_pub(&self.state, r0.rs2);
        let v = lhs.wrapping_add(rhs);
        let _ = self.state.set_reg(r0.rd, v);
        Ok(())
    }

    /// Execute `sub`.
    pub fn op_sub(&mut self, inst: u32, pc: u64) -> (r: Result<(), Exception>)
        requires
            old(self).wf(),
        ensures
            final(self).wf(),
            op_sub_effect(old(self), final(self), r, inst, pc),
    {
        let r0 = parse_format_r(inst);
        let lhs = reg_val_pub(&self.state, r0.rs1);
        let rhs = reg_val_pub(&self.state, r0.rs2);
        let v = lhs.wrapping_sub(rhs);
        let _ = self.state.set_reg(r0.rd, v);
        Ok(())
    }

    /// Execute `sll`.
    pub fn op_sll(&mut self, inst: u32, pc: u64) -> (r: Result<(), Exception>)
        requires
            old(self).wf(),
        ensures
            final(self).wf(),
            op_sll_effect(old(self), final(self), r, inst, pc),
    {
        let r0 = parse_format_r(inst);
        let lhs = reg_val_pub(&self.state, r0.rs1);
        let rhs = reg_val_pub(&self.state, r0.rs2);
        let shamt = rhs & 0x3F;
        proof { lemma_shamt(rhs); }
        let v = lhs << shamt;
        let _ = self.state.set_reg(r0.rd, v);
        Ok(())
    }

    /// Execute `slt`.
    pub fn op_slt(&mut self, inst: u32, pc: u64) -> (r: Result<(), Exception>)
        requires
            old(self).wf(),
        ensures
            final(self).wf(),
            op_slt_effect(old(self), final(self), r, inst, pc),
    {
        let r0 = parse_format_r(inst);
        let lhs = reg_val_pub(&self.state, r0.rs1);
        let rhs = reg_val_pub(&self.state, r0.rs2);
        let v: u64 = if (lhs as i64) < (rhs as i64) { 1 } else { 0 };
        let _ = self.state.set_reg(r0.rd, v);
        Ok(())
    }

    /// Execute `sltu`.
    pub fn op_sltu(&mut self, inst: u32, pc: u64) -> (r: Result<(), Exception>)
        requires
            old(self).wf(),
        ensures
            final(self).wf(),
            op_sltu_effect(old(self), final(self), r, inst, pc),
    {
        let r0 = parse_format_r(inst);
        let lhs = reg_val_pub(&self.state, r0.rs1);
        let rhs = reg_val_pub(&self.state, r0.rs2);
        let v: u64 = if lhs < rhs { 1 } else { 0 };
        let _ = self.state.set_reg(r0.rd, v);
        Ok(())
    }

    /// Execute `xor`.
    pub fn op_xor(&mut self, inst: u32, pc: u64) -> (r: Result<(), Exception>)
        requires
            old(self).wf(),
        ensures
            final(self).wf(),
            op_xor_effect(old(self), final(self), r, inst, pc),
    {
        let r0 = parse_format_r(inst);
        let lhs = reg_val_pub(&self.state, r0.rs1);
        let rhs = reg_val_pub(&self.state, r0.rs2);
        let v = lhs ^ rhs;
        let _ = self.state.set_reg(r0.rd, v);
        Ok(())
    }

    /// Execute `srl`.
    pub fn op_srl(&mut self, inst: u32, pc: u64) -> (r: Result<(), Exception>)
        requires
            old(self).wf(),
        ensures
            final(self).wf(),
            op_srl_effect(old(self), final(self), r, inst, pc),
    {
        let r0 = parse_format_r(inst);
        let lhs = reg_val_pub(&self.state, r0.rs1);
        let rhs = reg_val_pub(&self.state, r0.rs2);
        let shamt = rhs & 0x3F;
        proof { lemma_shamt(rhs); }
        let v = lhs >> shamt;
        let _ = self.state.set_reg(r0.rd, v);
        Ok(())
    }

    /// Execute `sra`.
    pub fn op_sra(&mut self, inst: u32, pc: u64) -> (r: Result<(), Exception>)
        requires
            old(self).wf(),
        ensures
            final(self).wf(),
            op_sra_effect(old(self), final(self), r, inst, pc),
    {
        let r0 = parse_format_r(inst);
        let lhs = reg_val_pub(&self.state, r0.rs1);
        let rhs = reg_val_pub(&self.state, r0.rs2);
        let shamt = rhs & 0x3F;
        proof { lemma_shamt(rhs); }
        let v = ((lhs as i64) >> shamt) as u64;
        let _ = self.state.set_reg(r0.rd, v);
        Ok(())
    }

    /// Execute `or`.
    pub fn op_or(&mut self, inst: u32, pc: u64) -> (r: Result<(), Exception>)
        requires
            old(self).wf(),
        ensures
            final(self).wf(),
            op_or_effect(old(self), final(self), r, inst, pc),
    {
        let r0 = parse_format_r(inst);
        let lhs = reg_val_pub(&self.state, r0.rs1);
        let rhs = reg_val_pub(&self.state, r0.rs2);
        let v = lhs | rhs;
        let _ = self.state.set_reg(r0.rd, v);
        Ok(())
    }

    /// Execute `and`.
    pub fn op_and(&mut self, inst: u32, pc: u64) -> (r: Result<(), Exception>)
        requires
            old(self).wf(),
        ensures
            final(self).wf(),
            op_and_effect(old(self), final(self), r, inst, pc),
    {
        let r0 = parse_format_r(inst);
        let lhs = reg_val_pub(&self.state, r0.rs1);
        let rhs = reg_val_pub(&self.state, r0.rs2);
        let v = lhs & rhs;
        let _ = self.state.set_reg(r0.rd, v);
        Ok(())
    }

    /// Execute `addiw`.
    pub fn op_addiw(&mut self, inst: u32, pc: u64) -> (r: Result<(), Exception>)
        requires
            old(self).wf(),
        ensures
            final(self).wf(),
            op_addiw_effect(old(self), final(self), r, inst, pc),
    {
        let i = parse_format_i(inst);
        let lhs = reg_val_pub(&self.state, i.rs1);
        let sum = lhs.wrapping_add(i.imm);
        let low = sum.bit_range(0usize..32usize);
        let v = sign_extend_64(low, 32);
        let _ = self.state.set_reg(i.rd, v);
        Ok(())
    }

    /// Execute `slliw`.
    pub fn op_slliw(&mut self, inst: u32, pc: u64) -> (r: Result<(), Exception>)
        requires
            old(self).wf(),
        ensures
            final(self).wf(),
            op_slliw_effect(old(self), final(self), r, inst, pc),
    {
        let i = parse_format_i(inst);
        let lhs = reg_val_pub(&self.state, i.rs1);
        let shamt = i.imm & 0x1F;
        proof { lemma_shamt(i.imm); }
        let low = (lhs << shamt).bit_range(0usize..32usize);
        let v = sign_extend_64(low, 32);
        let _ = self.state.set_reg(i.rd, v);
        Ok(())
    }

    /// Execute `srliw`.
    pub fn op_srliw(&mut self, inst: u32, pc: u64) -> (r: Result<(), Exception>)
        requires
            old(self).wf(),
        ensures
            final(self).wf(),
            op_srliw_effect(old(self), final(self), r, inst, pc),
    {
        let i = parse_format_i(inst);
        let lhs = reg_val_pub(&self.state, i.rs1);
        let shamt = i.imm & 0x1F;
        proof { lemma_shamt(i.imm); }
        let l32 = lhs.bit_range(0usize..32usize);
        let v = sign_extend_64(l32 >> shamt, 32);
        let _ = self.state.set_reg(i.rd, v);
        Ok(())
    }

    /// Execute `sraiw`.
    pub fn op_sraiw(&mut self, inst: u32, pc: u64) -> (r: Result<(), Exception>)
        requires
            old(self).wf(),
        ensures
            final(self).wf(),
            op_sraiw_effect(old(self), final(self), r, inst, pc),
    {
        let i = parse_format_i(inst);
        let lhs = reg_val_pub(&self.state, i.rs1);
        let shamt = i.imm & 0x1F;
        proof { lemma_shamt(i.imm); }
        let l32 = lhs.bit_range(0usize..32usize);
        let r32 = ((l32 as i32) >> shamt) as u32;
        let v = sign_extend_64(r32 as u64, 32);
        let _ = self.state.set_reg(i.rd, v);
        Ok(())
    }

    /// Execute `addw`.
    pub fn op_addw(&mut self, inst: u32, pc: u64) -> (r: Result<(), Exception>)
        requires
            old(self).wf(),
        ensures
            final(self).wf(),
            op_addw_effect(old(self), final(self), r, inst, pc),
    {
        let r0 = parse_format_r(inst);
        let lhs = reg_val_pub(&self.state, r0.rs1);
        let rhs = reg_val_pub(&self.state, r0.rs2);
        let l32 = lhs.bit_range(0usize..32usize);
        let r32 = rhs.bit_range(0usize..32usize);
        let v = sign_extend_64(l32.wrapping_add(r32), 32);
        let _ = self.state.set_reg(r0.rd, v);
        Ok(())
    }

    /// Execute `subw`.
    pub fn op_subw(&mut self, inst: u32, pc: u64) -> (r: Result<(), Exception>)
        requires
            old(self).wf(),
        ensures
            final(self).wf(),
            op_subw_effect(old(self), final(self), r, inst, pc),
    {
        let r0 = parse_format_r(inst);
        let lhs = reg_val_pub(&self.state, r0.rs1);
        let rhs = reg_val_pub(&self.state, r0.rs2);
        let l32 = lhs.bit_range(0usize..32usize);
        let r32 = rhs.bit_range(0usize..32usize);
        let v = sign_extend_64(l32.wrapping_sub(r32), 32);
        let _ = self.state.set_reg(r0.rd, v);
        Ok(())
    }

    /// Execute `sllw`.
    pub fn op_sllw(&mut self, inst: u32, pc: u64) -> (r: Result<(), Exception>)
        requires
            old(self).wf(),
        ensures
            final(self).wf(),
            op_sllw_effect(old(self), final(self), r, inst, pc),
    {
        let r0 = parse_format_r(inst);
        let lhs = reg_val_pub(&self.state, r0.rs1);
        let rhs = reg_val_pub(&self.state, r0.rs2);
        let shamt = rhs & 0x1F;
        proof { lemma_shamt(rhs); }
        let low = (lhs << shamt).bit_range(0usize..32usize);
        let v = sign_extend_64(low, 32);
        let _ = self.state.set_reg(r0.rd, v);
        Ok(())
    }

    /// Execute `srlw`.
    pub fn op_srlw(&mut self, inst: u32, pc: u64) -> (r: Result<(), Exception>)
        requires
            old(self).wf(),
        ensures
            final(self).wf(),
            op_srlw_effect(old(self), final(self), r, inst, pc),
    {
        let r0 = parse_format_r(inst);
        let lhs = reg_val_pub(&self.state, r0.rs1);
        let rhs = reg_val_pub(&self.state, r0.rs2);
        let shamt = rhs & 0x1F;
        proof { lemma_shamt(rhs); }
        let l32 = lhs.bit_range(0usize..32usize);
        let low = (l32 >> shamt).bit_range(0usize..32usize);
        let v = sign_extend_64(low, 32);
        let _ = self.state.set_reg(r0.rd, v);
        Ok(())
    }

    /// Execute `sraw`.
    pub fn op_sraw(&mut self, inst: u32, pc: u64) -> (r: Result<(), Exception>)
        requires
            old(self).wf(),
        ensures
            final(self).wf(),
            op_sraw_effect(old(self), final(self), r, inst, pc),
    {
        let r0 = parse_format_r(inst);
        let lhs = reg_val_pub(&self.state, r0.rs1);
        let rhs = reg_val_pub(&self.state, r0.rs2);
        let shamt = rhs & 0x1F;
        proof { lemma_shamt(rhs); }
        let l32 = lhs.bit_range(0usize..32usize);
        let r32s = ((l32 as i32) >> shamt) as u32;
        let v = sign_extend_64(r32s as u64, 32);
        let _ = self.state.set_reg(r0.rd, v);
        Ok(())
    }

}

impl<D: MmioDevice> Emulator<D> {
    /// Execute `beq`: branch to `pc + immediate` when the condition
    /// holds; a taken branch to a misaligned target records a pending
    /// exception and leaves `npc` unchanged.
    pub fn op_beq(&mut self, inst: u32, pc: u64) -> (r: Result<(), Exception>)
        requires
            old(self).wf(),
        ensures
            final(self).wf(),
            op_beq_effect(old(self), final(self), r, inst, pc),
    {
        let b = parse_format_b(inst);
        let lhs = reg_val_pub(&self.state, b.rs1);
        let rhs = reg_val_pub(&self.state, b.rs2);
        if lhs == rhs {
            let target = pc.wrapping_add(b.imm);
            if is_inst_addr_misaligned(target) {
                self.exception = Some(Exception::InstructionAddressMisaligned { addr: target });
                return Ok(());
            }
            self.state.set_npc(target);
        }
        Ok(())
    }

    /// Execute `bne`: branch to `pc + immediate` when the condition
    /// holds; a taken branch to a misaligned target records a pending
    /// exception and leaves `npc` unchanged.
    pub fn op_bne(&mut self, inst: u32, pc: u64) -> (r: Result<(), Exception>)
        requires
            old(self).wf(),
        ensures
            final(self).wf(),
            op_bne_effect(old(self), final(self), r, inst, pc),
    {
        let b = parse_format_b(inst);
        let lhs = reg_val_pub(&self.state, b.rs1);
        let rhs = reg_val_pub(&self.state, b.rs2);
        if lhs != rhs {
            let target = pc.wrapping_add(b.imm);
            if is_inst_addr_misaligned(target) {
                self.exception = Some(Exception::InstructionAddressMisaligned { addr: target });
                return Ok(());
            }
            self.state.set_npc(target);
        }
        Ok(())
    }

    /// Execute `blt`: branch to `pc + immediate` when the condition
    /// holds; a taken branch to a misaligned target records a pending
    /// exception and leaves `npc` unchanged.
    pub fn op_blt(&mut self, inst: u32, pc: u64) -> (r: Result<(), Exception>)
        requires
            old(self).wf(),
        ensures
            final(self).wf(),
            op_blt_effect(old(self), final(self), r, inst, pc),
    {
        let b = parse_format_b(inst);
        let lhs = reg_val_pub(&self.state, b.rs1);
        let rhs = reg_val_pub(&self.state, b.rs2);
        if (lhs as i64) < (rhs as i64) {
            let target = pc.wrapping_add(b.imm);
            if is_inst_addr_misaligned(target) {
                self.exception = Some(Exception::InstructionAddressMisaligned { addr: target });
                return Ok(());
            }
            self.state.set_npc(target);
        }
        Ok(())
    }

    /// Execute `bge`: branch to `pc + immediate` when the condition
    /// holds; a taken branch to a misaligned target records a pending
    /// exception and leaves `npc` unchanged.
    pub fn op_bge(&mut self, inst: u32, pc: u64) -> (r: Result<(), Exception>)
        requires
            old(self).wf(),
        ensures
            final(self).wf(),
            op_bge_effect(old(self), final(self), r, inst, pc),
    {
        let b = parse_format_b(inst);
        let lhs = reg_val_pub(&self.state, b.rs1);
        let rhs = reg_val_pub(&self.state, b.rs2);
        if (lhs as i64) >= (rhs as i64) {
            let target = pc.wrapping_add(b.imm);
            if is_inst_addr_misaligned(target) {
                self.exception = Some(Exception::InstructionAddressMisaligned { addr: target });
                return Ok(());
            }
            self.state.set_npc(target);
        }
        Ok(())
    }

    /// Execute `bltu`: branch to `pc + immediate` when the condition
    /// holds; a taken branch to a misaligned target records a pending
    /// exception and leaves `npc` unchanged.
    pub fn op_bltu(&mut self, inst: u32, pc: u64) -> (r: Result<(), Exception>)
        requires
            old(self).wf(),
        ensures
            final(self).wf(),
            op_bltu_effect(old(self), final(self), r, inst, pc),
    {
        let b = parse_format_b(inst);
        let lhs = reg_val_pub(&self.state, b.rs1);
        let rhs = reg_val_pub(&self.state, b.rs2);
        if lhs < rhs {
            let target = pc.wrapping_add(b.imm);
            if is_inst_addr_misaligned(target) {
                self.exception = Some(Exception::InstructionAddressMisaligned { addr: target });
                return Ok(());
            }
            self.state.set_npc(target);
        }
        Ok(())
    }

    /// Execute `bgeu`: branch to `pc + immediate` when the condition
    /// holds; a taken branch to a misaligned target records a pending
    /// exception and leaves `npc` unchanged.
    pub fn op_bgeu(&mut self, inst: u32, pc: u64) -> (r: Result<(), Exception>)
        requires
            old(self).wf(),
        ensures
            final(self).wf(),
            op_bgeu_effect(old(self), final(self), r, inst, pc),
    {
        let b = parse_format_b(inst);
        let lhs = reg_val_pub(&self.state, b.rs1);
        let rhs = reg_val_pub(&self.state, b.rs2);
        if lhs >= rhs {
            let target = pc.wrapping_add(b.imm);
            if is_inst_addr_misaligned(target) {
                self.exception = Some(Exception::InstructionAddressMisaligned { addr: target });
                return Ok(());
            }
            self.state.set_npc(target);
        }
        Ok(())
    }

    /// Execute `jal`: write the return address `pc + 4` to the destination,
    /// then jump to `pc + immediate`; a misaligned target records a pending
    /// exception instead of retargeting (the link register is still
    /// written).
    pub fn op_jal(&mut self, inst: u32, pc: u64) -> (r: Result<(), Exception>)
        requires
            old(self).wf(),
        ensures
            final(self).wf(),
            op_jal_effect(old(self), final(self), r, inst, pc),
    {
        let j = parse_format_j(inst);
        let _ = self.state.set_reg(j.rd, pc.wrapping_add(4));
        let target = pc.wrapping_add(j.imm);
        if is_inst_addr_misaligned(target) {
            self.exception = Some(Exception::InstructionAddressMisaligned { addr: target });
            return Ok(());
        }
        self.state.set_npc(target);
        Ok(())
    }

    /// Execute `jalr`: jump to `(rs1 + immediate) & !1` and write the
    /// return address `pc + 4` to the destination; a misaligned target
    /// records a pending exception and writes nothing.
    pub fn op_jalr(&mut self, inst: u32, pc: u64) -> (r: Result<(), Exception>)
        requires
            old(self).wf(),
        ensures
            final(self).wf(),
            op_jalr_effect(old(self), final(self), r, inst, pc),
    {
        let i = parse_format_i(inst);
        let base = reg_val_pub(&self.state, i.rs1);
        let target = base.wrapping_add(i.imm) & !1u64;
        if is_inst_addr_misaligned(target) {
            self.exception = Some(Exception::InstructionAddressMisaligned { addr: target });
            return Ok(());
        }
        self.state.set_npc(target);
        let _ = self.state.set_reg(i.rd, pc.wrapping_add(4));
        Ok(())
    }

    /// Execute `fence` as a no-op: all accesses of one step complete before
    /// the next begins on this single-threaded core, so ordering already
    /// holds.
    pub fn op_fence(&mut self, inst: u32, pc: u64) -> (r: Result<(), Exception>)
        requires
            old(self).wf(),
        ensures
            final(self).wf(),
            op_fence_effect(old(self), final(self), r, inst, pc),
    {
        Ok(())
    }

    /// Execute `ecall` by recording an environment-call exception in the
    /// pending slot, leaving architectural state untouched; the loop halts
    /// on it.
    pub fn op_ecall(&mut self, inst: u32, pc: u64) -> (r: Result<(), Exception>)
        requires
            old(self).wf(),
        ensures
            final(self).wf(),
            op_ecall_effect(old(self), final(self), r, inst, pc),
    {
        self.exception = Some(Exception::EnvironmentCall);
        Ok(())
    }

    /// Execute `ebreak`: raise the halt event; the loop marks execution
    /// ended.
    pub fn op_ebreak(&mut self, inst: u32, pc: u64) -> (r: Result<(), Exception>)
        requires
            old(self).wf(),
        ensures
            final(self).wf(),
            op_ebreak_effect(old(self), final(self), r, inst, pc),
    {
        self.event = Event::Halted;
        Ok(())
    }

}

impl<D: MmioDevice> Emulator<D> {
    /// Execute `lb`: load through the bus at `rs1 + immediate`. A
    /// watched address aborts the step with a read-watch event before any
    /// side effect; a bus fault surfaces as an access-fault error.
    pub fn op_lb(&mut self, inst: u32, pc: u64) -> (r: Result<(), Exception>)
        requires
            old(self).wf(),
        ensures
            final(self).wf(),
            op_lb_effect(old(self), final(self), r, inst, pc),
    {
        let i = parse_format_i(inst);
        let base = reg_val_pub(&self.state, i.rs1);
        let a = base.wrapping_add(i.imm);
        match self.first_watched(a, 1) {
            Some(w) => {
                self.event = Event::WatchRead(w);
                return Ok(());
            },
            None => (),
        }
        match self.state.memory.read_byte(a) {
            Ok(raw) => {
                let _ = self.state.set_reg(i.rd, sign_extend_64(raw as u64, 8));
                proof {
                    assert(self.regs() == regs_with(
                        &old(self).state,
                        spec_rd(inst) as int,
                        (spec_sign_extend_64(raw as u64, 8)),
                    ));
                }
                Ok(())
            },
            Err(_) => Err(Exception::AccessFault { addr: a }),
        }
    }

    /// Execute `lh`: load through the bus at `rs1 + immediate`. A
    /// watched address aborts the step with a read-watch event before any
    /// side effect; a bus fault surfaces as an access-fault error.
    pub fn op_lh(&mut self, inst: u32, pc: u64) -> (r: Result<(), Exception>)
        requires
            old(self).wf(),
        ensures
            final(self).wf(),
            op_lh_effect(old(self), final(self), r, inst, pc),
    {
        let i = parse_format_i(inst);
        let base = reg_val_pub(&self.state, i.rs1);
        let a = base.wrapping_add(i.imm);
        match self.first_watched(a, 2) {
            Some(w) => {
                self.event = Event::WatchRead(w);
                return Ok(());
            },
            None => (),
        }
        match self.state.memory.read_halfword(a) {
            Ok(raw) => {
                let _ = self.state.set_reg(i.rd, sign_extend_64(raw as u64, 16));
                proof {
                    assert(self.regs() == regs_with(
                        &old(self).state,
                        spec_rd(inst) as int,
                        (spec_sign_extend_64(raw as u64, 16)),
                    ));
                }
                Ok(())
            },
            Err(_) => Err(Exception::AccessFault { addr: a }),
        }
    }

    /// Execute `lw`: load through the bus at `rs1 + immediate`. A
    /// watched address aborts the step with a read-watch event before any
    /// side effect; a bus fault surfaces as an access-fault error.
    pub fn op_lw(&mut self, inst: u32, pc: u64) -> (r: Result<(), Exception>)
        requires
            old(self).wf(),
        ensures
            final(self).wf(),
            op_lw_effect(old(self), final(self), r, inst, pc),
    {
        let i = parse_format_i(inst);
        let base = reg_val_pub(&self.state, i.rs1);
        let a = base.wrapping_add(i.imm);
        match self.first_watched(a, 4) {
            Some(w) => {
                self.event = Event::WatchRead(w);
                return Ok(());
            },
            None => (),
        }
        match self.state.memory.read_word(a) {
            Ok(raw) => {
                let _ = self.state.set_reg(i.rd, sign_extend_64(raw as u64, 32));
                proof {
                    assert(self.regs() == regs_with(
                        &old(self).state,
                        spec_rd(inst) as int,
                        (spec_sign_extend_64(raw as u64, 32)),
                    ));
                }
                Ok(())
            },
            Err(_) => Err(Exception::AccessFault { addr: a }),
        }
    }

    /// Execute `ld`: load through the bus at `rs1 + immediate`. A
    /// watched address aborts the step with a read-watch event before any
    /// side effect; a bus fault surfaces as an access-fault error.
    pub fn op_ld(&mut self, inst: u32, pc: u64) -> (r: Result<(), Exception>)
        requires
            old(self).wf(),
        ensures
            final(self).wf(),
            op_ld_effect(old(self), final(self), r, inst, pc),
    {
        let i = parse_format_i(inst);
        let base = reg_val_pub(&self.state, i.rs1);
        let a = base.wrapping_add(i.imm);
        match self.first_watched(a, 8) {
            Some(w) => {
                self.event = Event::WatchRead(w);
                return Ok(());
            },
            None => (),
        }
        match self.state.memory.read_doubleword(a) {
            Ok(raw) => {
                let _ = self.state.set_reg(i.rd, raw);
                proof {
                    assert(self.regs() == regs_with(
                        &old(self).state,
                        spec_rd(inst) as int,
                        (raw),
                    ));
                }
                Ok(())
            },
            Err(_) => Err(Exception::AccessFault { addr: a }),
        }
    }

    /// Execute `lbu`: load through the bus at `rs1 + immediate`. A
    /// watched address aborts the step with a read-watch event before any
    /// side effect; a bus fault surfaces as an access-fault error.
    pub fn op_lbu(&mut self, inst: u32, pc: u64) -> (r: Result<(), Exception>)
        requires
            old(self).wf(),
        ensures
            final(self).wf(),
            op_lbu_effect(old(self), final(self), r, inst, pc),
    {
        let i = parse_format_i(inst);
        let base = reg_val_pub(&self.state, i.rs1);
        let a = base.wrapping_add(i.imm);
        match self.first_watched(a, 1) {
            Some(w) => {
                self.event = Event::WatchRead(w);
                return Ok(());
            },
            None => (),
        }
        match self.state.memory.read_byte(a) {
            Ok(raw) => {
                let _ = self.state.set_reg(i.rd, raw as u64);
                proof {
                    assert(self.regs() == regs_with(
                        &old(self).state,
                        spec_rd(inst) as int,
                        (raw as u64),
                    ));
                }
                Ok(())
            },
            Err(_) => Err(Exception::AccessFault { addr: a }),
        }
    }

    /// Execute `lhu`: load through the bus at `rs1 + immediate`. A
    /// watched address aborts the step with a read-watch event before any
    /// side effect; a bus fault surfaces as an access-fault error.
    pub fn op_lhu(&mut self, inst: u32, pc: u64) -> (r: Result<(), Exception>)
        requires
            old(self).wf(),
        ensures
            final(self).wf(),
            op_lhu_effect(old(self), final(self), r, inst, pc),
    {
        let i = parse_format_i(inst);
        let base = reg_val_pub(&self.state, i.rs1);
        let a = base.wrapping_add(i.imm);
        match self.first_watched(a, 2) {
            Some(w) => {
                self.event = Event::WatchRead(w);
                return Ok(());
            },
            None => (),
        }
        match self.state.memory.read_halfword(a) {
            Ok(raw) => {
                let _ = self.state.set_reg(i.rd, raw as u64);
                proof {
                    assert(self.regs() == regs_with(
                        &old(self).state,
                        spec_rd(inst) as int,
                        (raw as u64),
                    ));
                }
                Ok(())
            },
            Err(_) => Err(Exception::AccessFault { addr: a }),
        }
    }

    /// Execute `lwu`: load through the bus at `rs1 + immediate`. A
    /// watched address aborts the step with a read-watch event before any
    /// side effect; a bus fault surfaces as an access-fault error.
    pub fn op_lwu(&mut self, inst: u32, pc: u64) -> (r: Result<(), Exception>)
        requires
            old(self).wf(),
        ensures
            final(self).wf(),
            op_lwu_effect(old(self), final(self), r, inst, pc),
    {
        let i = parse_format_i(inst);
        let base = reg_val_pub(&self.state, i.rs1);
        let a = base.wrapping_add(i.imm);
        match self.first_watched(a, 4) {
            Some(w) => {
                self.event = Event::WatchRead(w);
                return Ok(());
            },
            None => (),
        }
        match self.state.memory.read_word(a) {
            Ok(raw) => {
                let _ = self.state.set_reg(i.rd, raw as u64);
                proof {
                    assert(self.regs() == regs_with(
                        &old(self).state,
                        spec_rd(inst) as int,
                        (raw as u64),
                    ));
                }
                Ok(())
            },
            Err(_) => Err(Exception::AccessFault { addr: a }),
        }
    }

    /// Execute `sb`: store through the bus at `rs1 + immediate`. A
    /// watched address aborts the step with a write-watch event before the
    /// store becomes visible; a bus fault surfaces as an access-fault
    /// error.
    pub fn op_sb(&mut self, inst: u32, pc: u64) -> (r: Result<(), Exception>)
        requires
            old(self).wf(),
        ensures
            final(self).wf(),
            op_sb_effect(old(self), final(self), r, inst, pc),
    {
        let st = parse_format_s(inst);
        let base = reg_val_pub(&self.state, st.rs1);
        let a = base.wrapping_add(st.imm);
        let value = reg_val_pub(&self.state, st.rs2);
        match self.first_watched(a, 1) {
            Some(w) => {
                self.event = Event::WatchWrite(w);
                return Ok(());
            },
            None => (),
        }
        match self.state.memory.write_byte(a, (value & 0xFF) as u8) {
            Ok(_) => Ok(()),
            Err(_) => Err(Exception::AccessFault { addr: a }),
        }
    }

    /// Execute `sh`: store through the bus at `rs1 + immediate`. A
    /// watched address aborts the step with a write-watch event before the
    /// store becomes visible; a bus fault surfaces as an access-fault
    /// error.
    pub fn op_sh(&mut self, inst: u32, pc: u64) -> (r: Result<(), Exception>)
        requires
            old(self).wf(),
        ensures
            final(self).wf(),
            op_sh_effect(old(self), final(self), r, inst, pc),
    {
        let st = parse_format_s(inst);
        let base = reg_val_pub(&self.state, st.rs1);
        let a = base.wrapping_add(st.imm);
        let value = reg_val_pub(&self.state, st.rs2);
        match self.first_watched(a, 2) {
            Some(w) => {
                self.event = Event::WatchWrite(w);
                return Ok(());
            },
            None => (),
        }
        match self.state.memory.write_halfword(a, (value & 0xFFFF) as u16) {
            Ok(_) => Ok(()),
            Err(_) => Err(Exception::AccessFault { addr: a }),
        }
    }

    /// Execute `sw`: store through the bus at `rs1 + immediate`. A
    /// watched address aborts the step with a write-watch event before the
    /// store becomes visible; a bus fault surfaces as an access-fault
    /// error.
    pub fn op_sw(&mut self, inst: u32, pc: u64) -> (r: Result<(), Exception>)
        requires
            old(self).wf(),
        ensures
            final(self).wf(),
            op_sw_effect(old(self), final(self), r, inst, pc),
    {
        let st = parse_format_s(inst);
        let base = reg_val_pub(&self.state, st.rs1);
        let a = base.wrapping_add(st.imm);
        let value = reg_val_pub(&self.state, st.rs2);
        match self.first_watched(a, 4) {
            Some(w) => {
                self.event = Event::WatchWrite(w);
                return Ok(());
            },
            None => (),
        }
        match self.state.memory.write_word(a, (value & 0xFFFFFFFF) as u32) {
            Ok(_) => Ok(()),
            Err(_) => Err(Exception::AccessFault { addr: a }),
        }
    }

    /// Execute `sd`: store through the bus at `rs1 + immediate`. A
    /// watched address aborts the step with a write-watch event before the
    /// store becomes visible; a bus fault surfaces as an access-fault
    /// error.
    pub fn op_sd(&mut self, inst: u32, pc: u64) -> (r: Result<(), Exception>)
        requires
            old(self).wf(),
        ensures
            final(self).wf(),
            op_sd_effect(old(self), final(self), r, inst, pc),
    {
        let st = parse_format_s(inst);
        let base = reg_val_pub(&self.state, st.rs1);
        let a = base.wrapping_add(st.imm);
        let value = reg_val_pub(&self.state, st.rs2);
        match self.first_watched(a, 8) {
            Some(w) => {
                self.event = Event::WatchWrite(w);
                return Ok(());
            },
            None => (),
        }
        match self.state.memory.write_doubleword(a, value) {
            Ok(_) => Ok(()),
            Err(_) => Err(Exception::AccessFault { addr: a }),
        }
    }

}

/// Exactly what `lui`'s handler contract states, as a relation between
/// the emulator before and after, for lifting through the execution loop.
pub open spec fn op_lui_effect<D>(
    pre: &Emulator<D>,
    post: &Emulator<D>,
    r: Result<(), Exception>,
    inst: u32,
    pc: u64,
) -> bool {
    &&& (r is Ok)
    &&& (post.regs() == regs_with(&pre.state, spec_rd(inst) as int, spec_lui_val(inst)))
    &&& (Emulator::<D>::same_but_regs(pre, post))
}

/// Exactly what `auipc`'s handler contract states, as a relation between
/// the emulator before and after, for lifting through the execution loop.
pub open spec fn op_auipc_effect<D>(
    pre: &Emulator<D>,
    post: &Emulator<D>,
    r: Result<(), Exception>,
    inst: u32,
    pc: u64,
) -> bool {
    &&& (r is Ok)
    &&& (post.regs() == regs_with(&pre.state, spec_rd(inst) as int, spec_auipc_val(inst, pc)))
    &&& (Emulator::<D>::same_but_regs(pre, post))
}

/// Exactly what `addi`'s handler contract states, as a relation between
/// the emulator before and after, for lifting through the execution loop.
pub open spec fn op_addi_effect<D>(
    pre: &Emulator<D>,
    post: &Emulator<D>,
    r: Result<(), Exception>,
    inst: u32,
    pc: u64,
) -> bool {
    &&& (r is Ok)
    &&& (post.regs() == regs_with(&pre.state, spec_rd(inst) as int, spec_addi_val(pre.regs(), inst)))
    &&& (Emulator::<D>::same_but_regs(pre, post))
}

/// Exactly what `slti`'s handler contract states, as a relation between
/// the emulator before and after, for lifting through the execution loop.
pub open spec fn op_slti_effect<D>(
    pre: &Emulator<D>,
    post: &Emulator<D>,
    r: Result<(), Exception>,
    inst: u32,
    pc: u64,
) -> bool {
    &&& (r is Ok)
    &&& (post.regs() == regs_with(&pre.state, spec_rd(inst) as int, spec_slti_val(pre.regs(), inst)))
    &&& (Emulator::<D>::same_but_regs(pre, post))
}

/// Exactly what `sltiu`'s handler contract states, as a relation between
/// the emulator before and after, for lifting through the execution loop.
pub open spec fn op_sltiu_effect<D>(
    pre: &Emulator<D>,
    post: &Emulator<D>,
    r: Result<(), Exception>,
    inst: u32,
    pc: u64,
) -> bool {
    &&& (r is Ok)
    &&& (post.regs() == regs_with(&pre.state, spec_rd(inst) as int, spec_sltiu_val(pre.regs(), inst)))
    &&& (Emulator::<D>::same_but_regs(pre, post))
}

/// Exactly what `xori`'s handler contract states, as a relation between
/// the emulator before and after, for lifting through the execution loop.
pub open spec fn op_xori_effect<D>(
    pre: &Emulator<D>,
    post: &Emulator<D>,
    r: Result<(), Exception>,
    inst: u32,
    pc: u64,
) -> bool {
    &&& (r is Ok)
    &&& (post.regs() == regs_with(&pre.state, spec_rd(inst) as int, spec_xori_val(pre.regs(), inst)))
    &&& (Emulator::<D>::same_but_regs(pre, post))
}

/// Exactly what `ori`'s handler contract states, as a relation between
/// the emulator before and after, for lifting through the execution loop.
pub open spec fn op_ori_effect<D>(
    pre: &Emulator<D>,
    post: &Emulator<D>,
    r: Result<(), Exception>,
    inst: u32,
    pc: u64,
) -> bool {
    &&& (r is Ok)
    &&& (post.regs() == regs_with(&pre.state, spec_rd(inst) as int, spec_ori_val(pre.regs(), inst)))
    &&& (Emulator::<D>::same_but_regs(pre, post))
}

/// Exactly what `andi`'s handler contract states, as a relation between
/// the emulator before and after, for lifting through the execution loop.
pub open spec fn op_andi_effect<D>(
    pre: &Emulator<D>,
    post: &Emulator<D>,
    r: Result<(), Exception>,
    inst: u32,
    pc: u64,
) -> bool {
    &&& (r is Ok)
    &&& (post.regs() == regs_with(&pre.state, spec_rd(inst) as int, spec_andi_val(pre.regs(), inst)))
    &&& (Emulator::<D>::same_but_regs(pre, post))
}

/// Exactly what `slli`'s handler contract states, as a relation between
/// the emulator before and after, for lifting through the execution loop.
pub open spec fn op_slli_effect<D>(
    pre: &Emulator<D>,
    post: &Emulator<D>,
    r: Result<(), Exception>,
    inst: u32,
    pc: u64,
) -> bool {
    &&& (r is Ok)
    &&& (post.regs() == regs_with(&pre.state, spec_rd(inst) as int, spec_slli_val(pre.regs(), inst)))
    &&& (Emulator::<D>::same_but_regs(pre, post))
}

/// Exactly what `srli`'s handler contract states, as a relation between
/// the emulator before and after, for lifting through the execution loop.
pub open spec fn op_srli_effect<D>(
    pre: &Emulator<D>,
    post: &Emulator<D>,
    r: Result<(), Exception>,
    inst: u32,
    pc: u64,
) -> bool {
    &&& (r is Ok)
    &&& (post.regs() == regs_with(&pre.state, spec_rd(inst) as int, spec_srli_val(pre.regs(), inst)))
    &&& (Emulator::<D>::same_but_regs(pre, post))
}

/// Exactly what `srai`'s handler contract states, as a relation between
/// the emulator before and after, for lifting through the execution loop.
pub open spec fn op_srai_effect<D>(
    pre: &Emulator<D>,
    post: &Emulator<D>,
    r: Result<(), Exception>,
    inst: u32,
    pc: u64,
) -> bool {
    &&& (r is Ok)
    &&& (post.regs() == regs_with(&pre.state, spec_rd(inst) as int, spec_srai_val(pre.regs(), inst)))
    &&& (Emulator::<D>::same_but_regs(pre, post))
}

/// Exactly what `add`'s handler contract states, as a relation between
/// the emulator before and after, for lifting through the execution loop.
pub open spec fn op_add_effect<D>(
    pre: &Emulator<D>,
    post: &Emulator<D>,
    r: Result<(), Exception>,
    inst: u32,
    pc: u64,
) -> bool {
    &&& (r is Ok)
    &&& (post.regs() == regs_with(&pre.state, spec_rd(inst) as int, spec_add_val(pre.regs(), inst)))
    &&& (Emulator::<D>::same_but_regs(pre, post))
}

/// Exactly what `sub`'s handler contract states, as a relation between
/// the emulator before and after, for lifting through the execution loop.
pub open spec fn op_sub_effect<D>(
    pre: &Emulator<D>,
    post: &Emulator<D>,
    r: Result<(), Exception>,
    inst: u32,
    pc: u64,
) -> bool {
    &&& (r is Ok)
    &&& (post.regs() == regs_with(&pre.state, spec_rd(inst) as int, spec_sub_val(pre.regs(), inst)))
    &&& (Emulator::<D>::same_but_regs(pre, post))
}

/// Exactly what `sll`'s handler contract states, as a relation between
/// the emulator before and after, for lifting through the execution loop.
pub open spec fn op_sll_effect<D>(
    pre: &Emulator<D>,
    post: &Emulator<D>,
    r: Result<(), Exception>,
    inst: u32,
    pc: u64,
) -> bool {
    &&& (r is Ok)
    &&& (post.regs() == regs_with(&pre.state, spec_rd(inst) as int, spec_sll_val(pre.regs(), inst)))
    &&& (Emulator::<D>::same_but_regs(pre, post))
}

/// Exactly what `slt`'s handler contract states, as a relation between
/// the emulator before and after, for lifting through the execution loop.
pub open spec fn op_slt_effect<D>(
    pre: &Emulator<D>,
    post: &Emulator<D>,
    r: Result<(), Exception>,
    inst: u32,
    pc: u64,
) -> bool {
    &&& (r is Ok)
    &&& (post.regs() == regs_with(&pre.state, spec_rd(inst) as int, spec_slt_val(pre.regs(), inst)))
    &&& (Emulator::<D>::same_but_regs(pre, post))
}

/// Exactly what `sltu`'s handler contract states, as a relation between
/// the emulator before and after, for lifting through the execution loop.
pub open spec fn op_sltu_effect<D>(
    pre: &Emulator<D>,
    post: &Emulator<D>,
    r: Result<(), Exception>,
    inst: u32,
    pc: u64,
) -> bool {
    &&& (r is Ok)
    &&& (post.regs() == regs_with(&pre.state, spec_rd(inst) as int, spec_sltu_val(pre.regs(), inst)))
    &&& (Emulator::<D>::same_but_regs(pre, post))
}

/// Exactly what `xor`'s handler contract states, as a relation between
/// the emulator before and after, for lifting through the execution loop.
pub open spec fn op_xor_effect<D>(
    pre: &Emulator<D>,
    post: &Emulator<D>,
    r: Result<(), Exception>,
    inst: u32,
    pc: u64,
) -> bool {
    &&& (r is Ok)
    &&& (post.regs() == regs_with(&pre.state, spec_rd(inst) as int, spec_xor_val(pre.regs(), inst)))
    &&& (Emulator::<D>::same_but_regs(pre, post))
}

/// Exactly what `srl`'s handler contract states, as a relation between
/// the emulator before and after, for lifting through the execution loop.
pub open spec fn op_srl_effect<D>(
    pre: &Emulator<D>,
    post: &Emulator<D>,
    r: Result<(), Exception>,
    inst: u32,
    pc: u64,
) -> bool {
    &&& (r is Ok)
    &&& (post.regs() == regs_with(&pre.state, spec_rd(inst) as int, spec_srl_val(pre.regs(), inst)))
    &&& (Emulator::<D>::same_but_regs(pre, post))
}

/// Exactly what `sra`'s handler contract states, as a relation between
/// the emulator before and after, for lifting through the execution loop.
pub open spec fn op_sra_effect<D>(
    pre: &Emulator<D>,
    post: &Emulator<D>,
    r: Result<(), Exception>,
    inst: u32,
    pc: u64,
) -> bool {
    &&& (r is Ok)
    &&& (post.regs() == regs_with(&pre.state, spec_rd(inst) as int, spec_sra_val(pre.regs(), inst)))
    &&& (Emulator::<D>::same_but_regs(pre, post))
}

/// Exactly what `or`'s handler contract states, as a relation between
/// the emulator before and after, for lifting through the execution loop.
pub open spec fn op_or_effect<D>(
    pre: &Emulator<D>,
    post: &Emulator<D>,
    r: Result<(), Exception>,
    inst: u32,
    pc: u64,
) -> bool {
    &&& (r is Ok)
    &&& (post.regs() == regs_with(&pre.state, spec_rd(inst) as int, spec_or_val(pre.regs(), inst)))
    &&& (Emulator::<D>::same_but_regs(pre, post))
}

/// Exactly what `and`'s handler contract states, as a relation between
/// the emulator before and after, for lifting through the execution loop.
pub open spec fn op_and_effect<D>(
    pre: &Emulator<D>,
    post: &Emulator<D>,
    r: Result<(), Exception>,
    inst: u32,
    pc: u64,
) -> bool {
    &&& (r is Ok)
    &&& (post.regs() == regs_with(&pre.state, spec_rd(inst) as int, spec_and_val(pre.regs(), inst)))
    &&& (Emulator::<D>::same_but_regs(pre, post))
}

/// Exactly what `addiw`'s handler contract states, as a relation between
/// the emulator before and after, for lifting through the execution loop.
pub open spec fn op_addiw_effect<D>(
    pre: &Emulator<D>,
    post: &Emulator<D>,
    r: Result<(), Exception>,
    inst: u32,
    pc: u64,
) -> bool {
    &&& (r is Ok)
    &&& (post.regs() == regs_with(&pre.state, spec_rd(inst) as int, spec_addiw_val(pre.regs(), inst)))
    &&& (Emulator::<D>::same_but_regs(pre, post))
}

/// Exactly what `slliw`'s handler contract states, as a relation between
/// the emulator before and after, for lifting through the execution loop.
pub open spec fn op_slliw_effect<D>(
    pre: &Emulator<D>,
    post: &Emulator<D>,
    r: Result<(), Exception>,
    inst: u32,
    pc: u64,
) -> bool {
    &&& (r is Ok)
    &&& (post.regs() == regs_with(&pre.state, spec_rd(inst) as int, spec_slliw_val(pre.regs(), inst)))
    &&& (Emulator::<D>::same_but_regs(pre, post))
}

/// Exactly what `srliw`'s handler contract states, as a relation between
/// the emulator before and after, for lifting through the execution loop.
pub open spec fn op_srliw_effect<D>(
    pre: &Emulator<D>,
    post: &Emulator<D>,
    r: Result<(), Exception>,
    inst: u32,
    pc: u64,
) -> bool {
    &&& (r is Ok)
    &&& (post.regs() == regs_with(&pre.state, spec_rd(inst) as int, spec_srliw_val(pre.regs(), inst)))
    &&& (Emulator::<D>::same_but_regs(pre, post))
}

/// Exactly what `sraiw`'s handler contract states, as a relation between
/// the emulator before and after, for lifting through the execution loop.
pub open spec fn op_sraiw_effect<D>(
    pre: &Emulator<D>,
    post: &Emulator<D>,
    r: Result<(), Exception>,
    inst: u32,
    pc: u64,
) -> bool {
    &&& (r is Ok)
    &&& (post.regs() == regs_with(&pre.state, spec_rd(inst) as int, spec_sraiw_val(pre.regs(), inst)))
    &&& (Emulator::<D>::same_but_regs(pre, post))
}

/// Exactly what `addw`'s handler contract states, as a relation between
/// the emulator before and after, for lifting through the execution loop.
pub open spec fn op_addw_effect<D>(
    pre: &Emulator<D>,
    post: &Emulator<D>,
    r: Result<(), Exception>,
    inst: u32,
    pc: u64,
) -> bool {
    &&& (r is Ok)
    &&& (post.regs() == regs_with(&pre.state, spec_rd(inst) as int, spec_addw_val(pre.regs(), inst)))
    &&& (Emulator::<D>::same_but_regs(pre, post))
}

/// Exactly what `subw`'s handler contract states, as a relation between
/// the emulator before and after, for lifting through the execution loop.
pub open spec fn op_subw_effect<D>(
    pre: &Emulator<D>,
    post: &Emulator<D>,
    r: Result<(), Exception>,
    inst: u32,
    pc: u64,
) -> bool {
    &&& (r is Ok)
    &&& (post.regs() == regs_with(&pre.state, spec_rd(inst) as int, spec_subw_val(pre.regs(), inst)))
    &&& (Emulator::<D>::same_but_regs(pre, post))
}

/// Exactly what `sllw`'s handler contract states, as a relation between
/// the emulator before and after, for lifting through the execution loop.
pub open spec fn op_sllw_effect<D>(
    pre: &Emulator<D>,
    post: &Emulator<D>,
    r: Result<(), Exception>,
    inst: u32,
    pc: u64,
) -> bool {
    &&& (r is Ok)
    &&& (post.regs() == regs_with(&pre.state, spec_rd(inst) as int, spec_sllw_val(pre.regs(), inst)))
    &&& (Emulator::<D>::same_but_regs(pre, post))
}

/// Exactly what `srlw`'s handler contract states, as a relation between
/// the emulator before and after, for lifting through the execution loop.
pub open spec fn op_srlw_effect<D>(
    pre: &Emulator<D>,
    post: &Emulator<D>,
    r: Result<(), Exception>,
    inst: u32,
    pc: u64,
) -> bool {
    &&& (r is Ok)
    &&& (post.regs() == regs_with(&pre.state, spec_rd(inst) as int, spec_srlw_val(pre.regs(), inst)))
    &&& (Emulator::<D>::same_but_regs(pre, post))
}

/// Exactly what `sraw`'s handler contract states, as a relation between
/// the emulator before and after, for lifting through the execution loop.
pub open spec fn op_sraw_effect<D>(
    pre: &Emulator<D>,
    post: &Emulator<D>,
    r: Result<(), Exception>,
    inst: u32,
    pc: u64,
) -> bool {
    &&& (r is Ok)
    &&& (post.regs() == regs_with(&pre.state, spec_rd(inst) as int, spec_sraw_val(pre.regs(), inst)))
    &&& (Emulator::<D>::same_but_regs(pre, post))
}

/// Exactly what `beq`'s handler contract states, as a relation between
/// the emulator before and after, for lifting through the execution loop.
pub open spec fn op_beq_effect<D>(
    pre: &Emulator<D>,
    post: &Emulator<D>,
    r: Result<(), Exception>,
    inst: u32,
    pc: u64,
) -> bool {
    &&& (r is Ok)
    &&& (Emulator::<D>::branch_effect(
                pre,
                post,
                (pre.regs()[spec_rs1(inst) as int] == pre.regs()[spec_rs2(inst) as int]),
                wadd(pc, spec_imm_b(inst)),
            ))
}

/// Exactly what `bne`'s handler contract states, as a relation between
/// the emulator before and after, for lifting through the execution loop.
pub open spec fn op_bne_effect<D>(
    pre: &Emulator<D>,
    post: &Emulator<D>,
    r: Result<(), Exception>,
    inst: u32,
    pc: u64,
) -> bool {
    &&& (r is Ok)
    &&& (Emulator::<D>::branch_effect(
                pre,
                post,
                (pre.regs()[spec_rs1(inst) as int] != pre.regs()[spec_rs2(inst) as int]),
                wadd(pc, spec_imm_b(inst)),
            ))
}

/// Exactly what `blt`'s handler contract states, as a relation between
/// the emulator before and after, for lifting through the execution loop.
pub open spec fn op_blt_effect<D>(
    pre: &Emulator<D>,
    post: &Emulator<D>,
    r: Result<(), Exception>,
    inst: u32,
    pc: u64,
) -> bool {
    &&& (r is Ok)
    &&& (Emulator::<D>::branch_effect(
                pre,
                post,
                ((pre.regs()[spec_rs1(inst) as int] as i64) < (pre.regs()[spec_rs2(inst) as int] as i64)),
                wadd(pc, spec_imm_b(inst)),
            ))
}

/// Exactly what `bge`'s handler contract states, as a relation between
/// the emulator before and after, for lifting through the execution loop.
pub open spec fn op_bge_effect<D>(
    pre: &Emulator<D>,
    post: &Emulator<D>,
    r: Result<(), Exception>,
    inst: u32,
    pc: u64,
) -> bool {
    &&& (r is Ok)
    &&& (Emulator::<D>::branch_effect(
                pre,
                post,
                ((pre.regs()[spec_rs1(inst) as int] as i64) >= (pre.regs()[spec_rs2(inst) as int] as i64)),
                wadd(pc, spec_imm_b(inst)),
            ))
}

/// Exactly what `bltu`'s handler contract states, as a relation between
/// the emulator before and after, for lifting through the execution loop.
pub open spec fn op_bltu_effect<D>(
    pre: &Emulator<D>,
    post: &Emulator<D>,
    r: Result<(), Exception>,
    inst: u32,
    pc: u64,
) -> bool {
    &&& (r is Ok)
    &&& (Emulator::<D>::branch_effect(
                pre,
                post,
                (pre.regs()[spec_rs1(inst) as int] < pre.regs()[spec_rs2(inst) as int]),
                wadd(pc, spec_imm_b(inst)),
            ))
}

/// Exactly what `bgeu`'s handler contract states, as a relation between
/// the emulator before and after, for lifting through the execution loop.
pub open spec fn op_bgeu_effect<D>(
    pre: &Emulator<D>,
    post: &Emulator<D>,
    r: Result<(), Exception>,
    inst: u32,
    pc: u64,
) -> bool {
    &&& (r is Ok)
    &&& (Emulator::<D>::branch_effect(
                pre,
                post,
                (pre.regs()[spec_rs1(inst) as int] >= pre.regs()[spec_rs2(inst) as int]),
                wadd(pc, spec_imm_b(inst)),
            ))
}

/// Exactly what `jal`'s handler contract states, as a relation between
/// the emulator before and after, for lifting through the execution loop.
pub open spec fn op_jal_effect<D>(
    pre: &Emulator<D>,
    post: &Emulator<D>,
    r: Result<(), Exception>,
    inst: u32,
    pc: u64,
) -> bool {
    &&& (r is Ok)
    &&& (post.regs() == regs_with(&pre.state, spec_rd(inst) as int, wadd(pc, 4)))
    &&& (post.state.pc == pre.state.pc)
    &&& (post.state.csrs@ == pre.state.csrs@)
    &&& (post.state.memory == pre.state.memory)
    &&& (wadd(pc, spec_imm_j(inst)) & 0b11 != 0 ==> (post.state.npc == pre.state.npc && post.exception == Some(
                Exception::InstructionAddressMisaligned { addr: wadd(pc, spec_imm_j(inst)) },
            ) && Emulator::<D>::harness_eq(pre, post, true, false)))
    &&& (wadd(pc, spec_imm_j(inst)) & 0b11 == 0 ==> (post.state.npc == wadd(
                pc,
                spec_imm_j(inst),
            ) && Emulator::<D>::harness_eq(pre, post, true, true)))
}

/// Exactly what `jalr`'s handler contract states, as a relation between
/// the emulator before and after, for lifting through the execution loop.
pub open spec fn op_jalr_effect<D>(
    pre: &Emulator<D>,
    post: &Emulator<D>,
    r: Result<(), Exception>,
    inst: u32,
    pc: u64,
) -> bool {
    &&& (r is Ok)
    &&& (post.state.pc == pre.state.pc)
    &&& (post.state.csrs@ == pre.state.csrs@)
    &&& (post.state.memory == pre.state.memory)
    &&& ((wadd(pre.regs()[spec_rs1(inst) as int], spec_imm_i(inst)) & !1u64) & 0b11 != 0
                ==> (post.regs() == pre.regs() && post.state.npc == pre.state.npc && post.exception == Some(
                Exception::InstructionAddressMisaligned {
                    addr: wadd(pre.regs()[spec_rs1(inst) as int], spec_imm_i(inst)) & !1u64,
                },
            ) && Emulator::<D>::harness_eq(pre, post, true, false)))
    &&& ((wadd(pre.regs()[spec_rs1(inst) as int], spec_imm_i(inst)) & !1u64) & 0b11 == 0
                ==> (post.regs() == regs_with(
                &pre.state,
                spec_rd(inst) as int,
                wadd(pc, 4),
            ) && post.state.npc == (wadd(
                pre.regs()[spec_rs1(inst) as int],
                spec_imm_i(inst),
            ) & !1u64) && Emulator::<D>::harness_eq(pre, post, true, true)))
}

/// Exactly what `fence`'s handler contract states, as a relation between
/// the emulator before and after, for lifting through the execution loop.
pub open spec fn op_fence_effect<D>(
    pre: &Emulator<D>,
    post: &Emulator<D>,
    r: Result<(), Exception>,
    inst: u32,
    pc: u64,
) -> bool {
    &&& (r is Ok)
    &&& (*post == *pre)
}

/// Exactly what `ecall`'s handler contract states, as a relation between
/// the emulator before and after, for lifting through the execution loop.
pub open spec fn op_ecall_effect<D>(
    pre: &Emulator<D>,
    post: &Emulator<D>,
    r: Result<(), Exception>,
    inst: u32,
    pc: u64,
) -> bool {
    &&& (r is Ok)
    &&& (post.state == pre.state)
    &&& (post.exception == Some(Exception::EnvironmentCall))
    &&& (Emulator::<D>::harness_eq(pre, post, true, false))
}

/// Exactly what `ebreak`'s handler contract states, as a relation between
/// the emulator before and after, for lifting through the execution loop.
pub open spec fn op_ebreak_effect<D>(
    pre: &Emulator<D>,
    post: &Emulator<D>,
    r: Result<(), Exception>,
    inst: u32,
    pc: u64,
) -> bool {
    &&& (r is Ok)
    &&& (post.state == pre.state)
    &&& (post.event == Event::Halted)
    &&& (Emulator::<D>::harness_eq(pre, post, false, true))
}

/// Exactly what `lb`'s handler contract states, as a relation between
/// the emulator before and after, for lifting through the execution loop.
pub open spec fn op_lb_effect<D>(
    pre: &Emulator<D>,
    post: &Emulator<D>,
    r: Result<(), Exception>,
    inst: u32,
    pc: u64,
) -> bool {
    &&& (pre.watch_in_range(wadd(pre.regs()[spec_rs1(inst) as int], spec_imm_i(inst)), 1) ==> (r is Ok && post.state == pre.state
                && Emulator::<D>::harness_eq(pre, post, false, true) && (exists|k: u64|
                k < 1 && post.event == Event::WatchRead(wadd(wadd(pre.regs()[spec_rs1(inst) as int], spec_imm_i(inst)), k)) && pre.watchpoints@.contains(wadd(wadd(pre.regs()[spec_rs1(inst) as int], spec_imm_i(inst)), k)))))
    &&& (!pre.watch_in_range(wadd(pre.regs()[spec_rs1(inst) as int], spec_imm_i(inst)), 1) && (pre.state.memory.addr_in_ram(wadd(pre.regs()[spec_rs1(inst) as int], spec_imm_i(inst)))) ==> (r is Ok && post.regs()
                == regs_with(&pre.state, spec_rd(inst) as int, (spec_sign_extend_64(pre.state.memory.ram()[pre.state.memory.ram_off(wadd(pre.regs()[spec_rs1(inst) as int], spec_imm_i(inst)))] as u64, 8))) && post.state.pc == pre.state.pc && post.state.npc == pre.state.npc
                && post.state.csrs@ == pre.state.csrs@ && post.state.memory
                == pre.state.memory && Emulator::<D>::harness_eq(pre, post, true, true)))
    &&& (!pre.watch_in_range(wadd(pre.regs()[spec_rs1(inst) as int], spec_imm_i(inst)), 1) && !pre.state.memory.addr_in_ram(wadd(pre.regs()[spec_rs1(inst) as int], spec_imm_i(inst))) && pre.state.memory.covered(wadd(pre.regs()[spec_rs1(inst) as int], spec_imm_i(inst))) ==> (Emulator::<D>::mem_frame(pre, post)
                && post.state.pc == pre.state.pc && post.state.npc == pre.state.npc && post.state.csrs@ == pre.state.csrs@
                && Emulator::<D>::harness_eq(pre, post, true, true) && (r is Ok
                ==> exists|raw0: u8|
                #![trigger regs_with(&pre.state, spec_rd(inst) as int, (spec_sign_extend_64(raw0 as u64, 8)))]
                post.regs() == regs_with(&pre.state, spec_rd(inst) as int, (spec_sign_extend_64(raw0 as u64, 8))))
                && (r is Err ==> r == Err::<(), Exception>(Exception::AccessFault { addr: wadd(pre.regs()[spec_rs1(inst) as int], spec_imm_i(inst)) })
                && post.regs() == pre.regs())))
    &&& (!pre.watch_in_range(wadd(pre.regs()[spec_rs1(inst) as int], spec_imm_i(inst)), 1) && !pre.state.memory.addr_in_ram(wadd(pre.regs()[spec_rs1(inst) as int], spec_imm_i(inst))) && !pre.state.memory.covered(wadd(pre.regs()[spec_rs1(inst) as int], spec_imm_i(inst))) ==> (r == Err::<(), Exception>(
                Exception::AccessFault { addr: wadd(pre.regs()[spec_rs1(inst) as int], spec_imm_i(inst)) },
            ) && *post == *pre))
}

/// Exactly what `lh`'s handler contract states, as a relation between
/// the emulator before and after, for lifting through the execution loop.
pub open spec fn op_lh_effect<D>(
    pre: &Emulator<D>,
    post: &Emulator<D>,
    r: Result<(), Exception>,
    inst: u32,
    pc: u64,
) -> bool {
    &&& (pre.watch_in_range(wadd(pre.regs()[spec_rs1(inst) as int], spec_imm_i(inst)), 2) ==> (r is Ok && post.state == pre.state
                && Emulator::<D>::harness_eq(pre, post, false, true) && (exists|k: u64|
                k < 2 && post.event == Event::WatchRead(wadd(wadd(pre.regs()[spec_rs1(inst) as int], spec_imm_i(inst)), k)) && pre.watchpoints@.contains(wadd(wadd(pre.regs()[spec_rs1(inst) as int], spec_imm_i(inst)), k)))))
    &&& (!pre.watch_in_range(wadd(pre.regs()[spec_rs1(inst) as int], spec_imm_i(inst)), 2) && (pre.state.memory.addr_in_ram(wadd(pre.regs()[spec_rs1(inst) as int], spec_imm_i(inst))) && pre.state.memory.range_in_ram(wadd(pre.regs()[spec_rs1(inst) as int], spec_imm_i(inst)), 2)) ==> (r is Ok && post.regs()
                == regs_with(&pre.state, spec_rd(inst) as int, (spec_sign_extend_64(spec_u16_from_le_bytes(pre.state.memory.ram().subrange(pre.state.memory.ram_off(wadd(pre.regs()[spec_rs1(inst) as int], spec_imm_i(inst))), pre.state.memory.ram_off(wadd(pre.regs()[spec_rs1(inst) as int], spec_imm_i(inst))) + 2)) as u64, 16))) && post.state.pc == pre.state.pc && post.state.npc == pre.state.npc
                && post.state.csrs@ == pre.state.csrs@ && post.state.memory
                == pre.state.memory && Emulator::<D>::harness_eq(pre, post, true, true)))
    &&& (!pre.watch_in_range(wadd(pre.regs()[spec_rs1(inst) as int], spec_imm_i(inst)), 2) && pre.state.memory.addr_in_ram(wadd(pre.regs()[spec_rs1(inst) as int], spec_imm_i(inst)))
                && !pre.state.memory.range_in_ram(wadd(pre.regs()[spec_rs1(inst) as int], spec_imm_i(inst)), 2) ==> (r == Err::<(), Exception>(
                Exception::AccessFault { addr: wadd(pre.regs()[spec_rs1(inst) as int], spec_imm_i(inst)) },
            ) && *post == *pre))
    &&& (!pre.watch_in_range(wadd(pre.regs()[spec_rs1(inst) as int], spec_imm_i(inst)), 2) && !pre.state.memory.addr_in_ram(wadd(pre.regs()[spec_rs1(inst) as int], spec_imm_i(inst))) && pre.state.memory.covered(wadd(pre.regs()[spec_rs1(inst) as int], spec_imm_i(inst))) ==> (Emulator::<D>::mem_frame(pre, post)
                && post.state.pc == pre.state.pc && post.state.npc == pre.state.npc && post.state.csrs@ == pre.state.csrs@
                && Emulator::<D>::harness_eq(pre, post, true, true) && (r is Ok
                ==> exists|raw0: u16|
                #![trigger regs_with(&pre.state, spec_rd(inst) as int, (spec_sign_extend_64(raw0 as u64, 16)))]
                post.regs() == regs_with(&pre.state, spec_rd(inst) as int, (spec_sign_extend_64(raw0 as u64, 16))))
                && (r is Err ==> r == Err::<(), Exception>(Exception::AccessFault { addr: wadd(pre.regs()[spec_rs1(inst) as int], spec_imm_i(inst)) })
                && post.regs() == pre.regs())))
    &&& (!pre.watch_in_range(wadd(pre.regs()[spec_rs1(inst) as int], spec_imm_i(inst)), 2) && !pre.state.memory.addr_in_ram(wadd(pre.regs()[spec_rs1(inst) as int], spec_imm_i(inst))) && !pre.state.memory.covered(wadd(pre.regs()[spec_rs1(inst) as int], spec_imm_i(inst))) ==> (r == Err::<(), Exception>(
                Exception::AccessFault { addr: wadd(pre.regs()[spec_rs1(inst) as int], spec_imm_i(inst)) },
            ) && *post == *pre))
}

/// Exactly what `lw`'s handler contract states, as a relation between
/// the emulator before and after, for lifting through the execution loop.
pub open spec fn op_lw_effect<D>(
    pre: &Emulator<D>,
    post: &Emulator<D>,
    r: Result<(), Exception>,
    inst: u32,
    pc: u64,
) -> bool {
    &&& (pre.watch_in_range(wadd(pre.regs()[spec_rs1(inst) as int], spec_imm_i(inst)), 4) ==> (r is Ok && post.state == pre.state
                && Emulator::<D>::harness_eq(pre, post, false, true) && (exists|k: u64|
                k < 4 && post.event == Event::WatchRead(wadd(wadd(pre.regs()[spec_rs1(inst) as int], spec_imm_i(inst)), k)) && pre.watchpoints@.contains(wadd(wadd(pre.regs()[spec_rs1(inst) as int], spec_imm_i(inst)), k)))))
    &&& (!pre.watch_in_range(wadd(pre.regs()[spec_rs1(inst) as int], spec_imm_i(inst)), 4) && (pre.state.memory.addr_in_ram(wadd(pre.regs()[spec_rs1(inst) as int], spec_imm_i(inst))) && pre.state.memory.range_in_ram(wadd(pre.regs()[spec_rs1(inst) as int], spec_imm_i(inst)), 4)) ==> (r is Ok && post.regs()
                == regs_with(&pre.state, spec_rd(inst) as int, (spec_sign_extend_64(spec_u32_from_le_bytes(pre.state.memory.ram().subrange(pre.state.memory.ram_off(wadd(pre.regs()[spec_rs1(inst) as int], spec_imm_i(inst))), pre.state.memory.ram_off(wadd(pre.regs()[spec_rs1(inst) as int], spec_imm_i(inst))) + 4)) as u64, 32))) && post.state.pc == pre.state.pc && post.state.npc == pre.state.npc
                && post.state.csrs@ == pre.state.csrs@ && post.state.memory
                == pre.state.memory && Emulator::<D>::harness_eq(pre, post, true, true)))
    &&& (!pre.watch_in_range(wadd(pre.regs()[spec_rs1(inst) as int], spec_imm_i(inst)), 4) && pre.state.memory.addr_in_ram(wadd(pre.regs()[spec_rs1(inst) as int], spec_imm_i(inst)))
                && !pre.state.memory.range_in_ram(wadd(pre.regs()[spec_rs1(inst) as int], spec_imm_i(inst)), 4) ==> (r == Err::<(), Exception>(
                Exception::AccessFault { addr: wadd(pre.regs()[spec_rs1(inst) as int], spec_imm_i(inst)) },
            ) && *post == *pre))
    &&& (!pre.watch_in_range(wadd(pre.regs()[spec_rs1(inst) as int], spec_imm_i(inst)), 4) && !pre.state.memory.addr_in_ram(wadd(pre.regs()[spec_rs1(inst) as int], spec_imm_i(inst))) && pre.state.memory.covered(wadd(pre.regs()[spec_rs1(inst) as int], spec_imm_i(inst))) ==> (Emulator::<D>::mem_frame(pre, post)
                && post.state.pc == pre.state.pc && post.state.npc == pre.state.npc && post.state.csrs@ == pre.state.csrs@
                && Emulator::<D>::harness_eq(pre, post, true, true) && (r is Ok
                ==> exists|raw0: u32|
                #![trigger regs_with(&pre.state, spec_rd(inst) as int, (spec_sign_extend_64(raw0 as u64, 32)))]
                post.regs() == regs_with(&pre.state, spec_rd(inst) as int, (spec_sign_extend_64(raw0 as u64, 32))))
                && (r is Err ==> r == Err::<(), Exception>(Exception::AccessFault { addr: wadd(pre.regs()[spec_rs1(inst) as int], spec_imm_i(inst)) })
                && post.regs() == pre.regs())))
    &&& (!pre.watch_in_range(wadd(pre.regs()[spec_rs1(inst) as int], spec_imm_i(inst)), 4) && !pre.state.memory.addr_in_ram(wadd(pre.regs()[spec_rs1(inst) as int], spec_imm_i(inst))) && !pre.state.memory.covered(wadd(pre.regs()[spec_rs1(inst) as int], spec_imm_i(inst))) ==> (r == Err::<(), Exception>(
                Exception::AccessFault { addr: wadd(pre.regs()[spec_rs1(inst) as int], spec_imm_i(inst)) },
            ) && *post == *pre))
}

/// Exactly what `ld`'s handler contract states, as a relation between
/// the emulator before and after, for lifting through the execution loop.
pub open spec fn op_ld_effect<D>(
    pre: &Emulator<D>,
    post: &Emulator<D>,
    r: Result<(), Exception>,
    inst: u32,
    pc: u64,
) -> bool {
    &&& (pre.watch_in_range(wadd(pre.regs()[spec_rs1(inst) as int], spec_imm_i(inst)), 8) ==> (r is Ok && post.state == pre.state
                && Emulator::<D>::harness_eq(pre, post, false, true) && (exists|k: u64|
                k < 8 && post.event == Event::WatchRead(wadd(wadd(pre.regs()[spec_rs1(inst) as int], spec_imm_i(inst)), k)) && pre.watchpoints@.contains(wadd(wadd(pre.regs()[spec_rs1(inst) as int], spec_imm_i(inst)), k)))))
    &&& (!pre.watch_in_range(wadd(pre.regs()[spec_rs1(inst) as int], spec_imm_i(inst)), 8) && (pre.state.memory.addr_in_ram(wadd(pre.regs()[spec_rs1(inst) as int], spec_imm_i(inst))) && pre.state.memory.range_in_ram(wadd(pre.regs()[spec_rs1(inst) as int], spec_imm_i(inst)), 8)) ==> (r is Ok && post.regs()
                == regs_with(&pre.state, spec_rd(inst) as int, (spec_u64_from_le_bytes(pre.state.memory.ram().subrange(pre.state.memory.ram_off(wadd(pre.regs()[spec_rs1(inst) as int], spec_imm_i(inst))), pre.state.memory.ram_off(wadd(pre.regs()[spec_rs1(inst) as int], spec_imm_i(inst))) + 8)))) && post.state.pc == pre.state.pc && post.state.npc == pre.state.npc
                && post.state.csrs@ == pre.state.csrs@ && post.state.memory
                == pre.state.memory && Emulator::<D>::harness_eq(pre, post, true, true)))
    &&& (!pre.watch_in_range(wadd(pre.regs()[spec_rs1(inst) as int], spec_imm_i(inst)), 8) && pre.state.memory.addr_in_ram(wadd(pre.regs()[spec_rs1(inst) as int], spec_imm_i(inst)))
                && !pre.state.memory.range_in_ram(wadd(pre.regs()[spec_rs1(inst) as int], spec_imm_i(inst)), 8) ==> (r == Err::<(), Exception>(
                Exception::AccessFault { addr: wadd(pre.regs()[spec_rs1(inst) as int], spec_imm_i(inst)) },
            ) && *post == *pre))
    &&& (!pre.watch_in_range(wadd(pre.regs()[spec_rs1(inst) as int], spec_imm_i(inst)), 8) && !pre.state.memory.addr_in_ram(wadd(pre.regs()[spec_rs1(inst) as int], spec_imm_i(inst))) && pre.state.memory.covered(wadd(pre.regs()[spec_rs1(inst) as int], spec_imm_i(inst))) ==> (Emulator::<D>::mem_frame(pre, post)
                && post.state.pc == pre.state.pc && post.state.npc == pre.state.npc && post.state.csrs@ == pre.state.csrs@
                && Emulator::<D>::harness_eq(pre, post, true, true) && (r is Ok
                ==> exists|raw0: u64|
                #![trigger regs_with(&pre.state, spec_rd(inst) as int, (raw0))]
                post.regs() == regs_with(&pre.state, spec_rd(inst) as int, (raw0)))
                && (r is Err ==> r == Err::<(), Exception>(Exception::AccessFault { addr: wadd(pre.regs()[spec_rs1(inst) as int], spec_imm_i(inst)) })
                && post.regs() == pre.regs())))
    &&& (!pre.watch_in_range(wadd(pre.regs()[spec_rs1(inst) as int], spec_imm_i(inst)), 8) && !pre.state.memory.addr_in_ram(wadd(pre.regs()[spec_rs1(inst) as int], spec_imm_i(inst))) && !pre.state.memory.covered(wadd(pre.regs()[spec_rs1(inst) as int], spec_imm_i(inst))) ==> (r == Err::<(), Exception>(
                Exception::AccessFault { addr: wadd(pre.regs()[spec_rs1(inst) as int], spec_imm_i(inst)) },
            ) && *post == *pre))
}

/// Exactly what `lbu`'s handler contract states, as a relation between
/// the emulator before and after, for lifting through the execution loop.
pub open spec fn op_lbu_effect<D>(
    pre: &Emulator<D>,
    post: &Emulator<D>,
    r: Result<(), Exception>,
    inst: u32,
    pc: u64,
) -> bool {
    &&& (pre.watch_in_range(wadd(pre.regs()[spec_rs1(inst) as int], spec_imm_i(inst)), 1) ==> (r is Ok && post.state == pre.state
                && Emulator::<D>::harness_eq(pre, post, false, true) && (exists|k: u64|
                k < 1 && post.event == Event::WatchRead(wadd(wadd(pre.regs()[spec_rs1(inst) as int], spec_imm_i(inst)), k)) && pre.watchpoints@.contains(wadd(wadd(pre.regs()[spec_rs1(inst) as int], spec_imm_i(inst)), k)))))
    &&& (!pre.watch_in_range(wadd(pre.regs()[spec_rs1(inst) as int], spec_imm_i(inst)), 1) && (pre.state.memory.addr_in_ram(wadd(pre.regs()[spec_rs1(inst) as int], spec_imm_i(inst)))) ==> (r is Ok && post.regs()
                == regs_with(&pre.state, spec_rd(inst) as int, (pre.state.memory.ram()[pre.state.memory.ram_off(wadd(pre.regs()[spec_rs1(inst) as int], spec_imm_i(inst)))] as u64)) && post.state.pc == pre.state.pc && post.state.npc == pre.state.npc
                && post.state.csrs@ == pre.state.csrs@ && post.state.memory
                == pre.state.memory && Emulator::<D>::harness_eq(pre, post, true, true)))
    &&& (!pre.watch_in_range(wadd(pre.regs()[spec_rs1(inst) as int], spec_imm_i(inst)), 1) && !pre.state.memory.addr_in_ram(wadd(pre.regs()[spec_rs1(inst) as int], spec_imm_i(inst))) && pre.state.memory.covered(wadd(pre.regs()[spec_rs1(inst) as int], spec_imm_i(inst))) ==> (Emulator::<D>::mem_frame(pre, post)
                && post.state.pc == pre.state.pc && post.state.npc == pre.state.npc && post.state.csrs@ == pre.state.csrs@
                && Emulator::<D>::harness_eq(pre, post, true, true) && (r is Ok
                ==> exists|raw0: u8|
                #![trigger regs_with(&pre.state, spec_rd(inst) as int, (raw0 as u64))]
                post.regs() == regs_with(&pre.state, spec_rd(inst) as int, (raw0 as u64)))
                && (r is Err ==> r == Err::<(), Exception>(Exception::AccessFault { addr: wadd(pre.regs()[spec_rs1(inst) as int], spec_imm_i(inst)) })
                && post.regs() == pre.regs())))
    &&& (!pre.watch_in_range(wadd(pre.regs()[spec_rs1(inst) as int], spec_imm_i(inst)), 1) && !pre.state.memory.addr_in_ram(wadd(pre.regs()[spec_rs1(inst) as int], spec_imm_i(inst))) && !pre.state.memory.covered(wadd(pre.regs()[spec_rs1(inst) as int], spec_imm_i(inst))) ==> (r == Err::<(), Exception>(
                Exception::AccessFault { addr: wadd(pre.regs()[spec_rs1(inst) as int], spec_imm_i(inst)) },
            ) && *post == *pre))
}

/// Exactly what `lhu`'s handler contract states, as a relation between
/// the emulator before and after, for lifting through the execution loop.
pub open spec fn op_lhu_effect<D>(
    pre: &Emulator<D>,
    post: &Emulator<D>,
    r: Result<(), Exception>,
    inst: u32,
    pc: u64,
) -> bool {
    &&& (pre.watch_in_range(wadd(pre.regs()[spec_rs1(inst) as int], spec_imm_i(inst)), 2) ==> (r is Ok && post.state == pre.state
                && Emulator::<D>::harness_eq(pre, post, false, true) && (exists|k: u64|
                k < 2 && post.event == Event::WatchRead(wadd(wadd(pre.regs()[spec_rs1(inst) as int], spec_imm_i(inst)), k)) && pre.watchpoints@.contains(wadd(wadd(pre.regs()[spec_rs1(inst) as int], spec_imm_i(inst)), k)))))
    &&& (!pre.watch_in_range(wadd(pre.regs()[spec_rs1(inst) as int], spec_imm_i(inst)), 2) && (pre.state.memory.addr_in_ram(wadd(pre.regs()[spec_rs1(inst) as int], spec_imm_i(inst))) && pre.state.memory.range_in_ram(wadd(pre.regs()[spec_rs1(inst) as int], spec_imm_i(inst)), 2)) ==> (r is Ok && post.regs()
                == regs_with(&pre.state, spec_rd(inst) as int, (spec_u16_from_le_bytes(pre.state.memory.ram().subrange(pre.state.memory.ram_off(wadd(pre.regs()[spec_rs1(inst) as int], spec_imm_i(inst))), pre.state.memory.ram_off(wadd(pre.regs()[spec_rs1(inst) as int], spec_imm_i(inst))) + 2)) as u64)) && post.state.pc == pre.state.pc && post.state.npc == pre.state.npc
                && post.state.csrs@ == pre.state.csrs@ && post.state.memory
                == pre.state.memory && Emulator::<D>::harness_eq(pre, post, true, true)))
    &&& (!pre.watch_in_range(wadd(pre.regs()[spec_rs1(inst) as int], spec_imm_i(inst)), 2) && pre.state.memory.addr_in_ram(wadd(pre.regs()[spec_rs1(inst) as int], spec_imm_i(inst)))
                && !pre.state.memory.range_in_ram(wadd(pre.regs()[spec_rs1(inst) as int], spec_imm_i(inst)), 2) ==> (r == Err::<(), Exception>(
                Exception::AccessFault { addr: wadd(pre.regs()[spec_rs1(inst) as int], spec_imm_i(inst)) },
            ) && *post == *pre))
    &&& (!pre.watch_in_range(wadd(pre.regs()[spec_rs1(inst) as int], spec_imm_i(inst)), 2) && !pre.state.memory.addr_in_ram(wadd(pre.regs()[spec_rs1(inst) as int], spec_imm_i(inst))) && pre.state.memory.covered(wadd(pre.regs()[spec_rs1(inst) as int], spec_imm_i(inst))) ==> (Emulator::<D>::mem_frame(pre, post)
                && post.state.pc == pre.state.pc && post.state.npc == pre.state.npc && post.state.csrs@ == pre.state.csrs@
                && Emulator::<D>::harness_eq(pre, post, true, true) && (r is Ok
                ==> exists|raw0: u16|
                #![trigger regs_with(&pre.state, spec_rd(inst) as int, (raw0 as u64))]
                post.regs() == regs_with(&pre.state, spec_rd(inst) as int, (raw0 as u64)))
                && (r is Err ==> r == Err::<(), Exception>(Exception::AccessFault { addr: wadd(pre.regs()[spec_rs1(inst) as int], spec_imm_i(inst)) })
                && post.regs() == pre.regs())))
    &&& (!pre.watch_in_range(wadd(pre.regs()[spec_rs1(inst) as int], spec_imm_i(inst)), 2) && !pre.state.memory.addr_in_ram(wadd(pre.regs()[spec_rs1(inst) as int], spec_imm_i(inst))) && !pre.state.memory.covered(wadd(pre.regs()[spec_rs1(inst) as int], spec_imm_i(inst))) ==> (r == Err::<(), Exception>(
                Exception::AccessFault { addr: wadd(pre.regs()[spec_rs1(inst) as int], spec_imm_i(inst)) },
            ) && *post == *pre))
}

/// Exactly what `lwu`'s handler contract states, as a relation between
/// the emulator before and after, for lifting through the execution loop.
pub open spec fn op_lwu_effect<D>(
    pre: &Emulator<D>,
    post: &Emulator<D>,
    r: Result<(), Exception>,
    inst: u32,
    pc: u64,
) -> bool {
    &&& (pre.watch_in_range(wadd(pre.regs()[spec_rs1(inst) as int], spec_imm_i(inst)), 4) ==> (r is Ok && post.state == pre.state
                && Emulator::<D>::harness_eq(pre, post, false, true) && (exists|k: u64|
                k < 4 && post.event == Event::WatchRead(wadd(wadd(pre.regs()[spec_rs1(inst) as int], spec_imm_i(inst)), k)) && pre.watchpoints@.contains(wadd(wadd(pre.regs()[spec_rs1(inst) as int], spec_imm_i(inst)), k)))))
    &&& (!pre.watch_in_range(wadd(pre.regs()[spec_rs1(inst) as int], spec_imm_i(inst)), 4) && (pre.state.memory.addr_in_ram(wadd(pre.regs()[spec_rs1(inst) as int], spec_imm_i(inst))) && pre.state.memory.range_in_ram(wadd(pre.regs()[spec_rs1(inst) as int], spec_imm_i(inst)), 4)) ==> (r is Ok && post.regs()
                == regs_with(&pre.state, spec_rd(inst) as int, (spec_u32_from_le_bytes(pre.state.memory.ram().subrange(pre.state.memory.ram_off(wadd(pre.regs()[spec_rs1(inst) as int], spec_imm_i(inst))), pre.state.memory.ram_off(wadd(pre.regs()[spec_rs1(inst) as int], spec_imm_i(inst))) + 4)) as u64)) && post.state.pc == pre.state.pc && post.state.npc == pre.state.npc
                && post.state.csrs@ == pre.state.csrs@ && post.state.memory
                == pre.state.memory && Emulator::<D>::harness_eq(pre, post, true, true)))
    &&& (!pre.watch_in_range(wadd(pre.regs()[spec_rs1(inst) as int], spec_imm_i(inst)), 4) && pre.state.memory.addr_in_ram(wadd(pre.regs()[spec_rs1(inst) as int], spec_imm_i(inst)))
                && !pre.state.memory.range_in_ram(wadd(pre.regs()[spec_rs1(inst) as int], spec_imm_i(inst)), 4) ==> (r == Err::<(), Exception>(
                Exception::AccessFault { addr: wadd(pre.regs()[spec_rs1(inst) as int], spec_imm_i(inst)) },
            ) && *post == *pre))
    &&& (!pre.watch_in_range(wadd(pre.regs()[spec_rs1(inst) as int], spec_imm_i(inst)), 4) && !pre.state.memory.addr_in_ram(wadd(pre.regs()[spec_rs1(inst) as int], spec_imm_i(inst))) && pre.state.memory.covered(wadd(pre.regs()[spec_rs1(inst) as int], spec_imm_i(inst))) ==> (Emulator::<D>::mem_frame(pre, post)
                && post.state.pc == pre.state.pc && post.state.npc == pre.state.npc && post.state.csrs@ == pre.state.csrs@
                && Emulator::<D>::harness_eq(pre, post, true, true) && (r is Ok
                ==> exists|raw0: u32|
                #![trigger regs_with(&pre.state, spec_rd(inst) as int, (raw0 as u64))]
                post.regs() == regs_with(&pre.state, spec_rd(inst) as int, (raw0 as u64)))
                && (r is Err ==> r == Err::<(), Exception>(Exception::AccessFault { addr: wadd(pre.regs()[spec_rs1(inst) as int], spec_imm_i(inst)) })
                && post.regs() == pre.regs())))
    &&& (!pre.watch_in_range(wadd(pre.regs()[spec_rs1(inst) as int], spec_imm_i(inst)), 4) && !pre.state.memory.addr_in_ram(wadd(pre.regs()[spec_rs1(inst) as int], spec_imm_i(inst))) && !pre.state.memory.covered(wadd(pre.regs()[spec_rs1(inst) as int], spec_imm_i(inst))) ==> (r == Err::<(), Exception>(
                Exception::AccessFault { addr: wadd(pre.regs()[spec_rs1(inst) as int], spec_imm_i(inst)) },
            ) && *post == *pre))
}

/// Exactly what `sb`'s handler contract states, as a relation between
/// the emulator before and after, for lifting through the execution loop.
pub open spec fn op_sb_effect<D>(
    pre: &Emulator<D>,
    post: &Emulator<D>,
    r: Result<(), Exception>,
    inst: u32,
    pc: u64,
) -> bool {
    &&& (pre.watch_in_range(wadd(pre.regs()[spec_rs1(inst) as int], spec_imm_s(inst)), 1) ==> (r is Ok && post.state == pre.state
                && Emulator::<D>::harness_eq(pre, post, false, true) && (exists|k: u64|
                k < 1 && post.event == Event::WatchWrite(wadd(wadd(pre.regs()[spec_rs1(inst) as int], spec_imm_s(inst)), k)) && pre.watchpoints@.contains(wadd(wadd(pre.regs()[spec_rs1(inst) as int], spec_imm_s(inst)), k)))))
    &&& (!pre.watch_in_range(wadd(pre.regs()[spec_rs1(inst) as int], spec_imm_s(inst)), 1) && (pre.state.memory.addr_in_ram(wadd(pre.regs()[spec_rs1(inst) as int], spec_imm_s(inst)))) ==> (r is Ok && post.state.memory.ram() == spec_store(
                pre.state.memory.ram(),
                pre.state.memory.ram_off(wadd(pre.regs()[spec_rs1(inst) as int], spec_imm_s(inst))),
                seq![(pre.regs()[spec_rs2(inst) as int] & 0xFF) as u8],
            ) && post.state.memory.regions() == pre.state.memory.regions() && post.state.memory.base_addr() == pre.state.memory.base_addr() && post.state.memory.ram_size() == pre.state.memory.ram_size() && post.regs()
                == pre.regs() && post.state.pc == pre.state.pc && post.state.npc == pre.state.npc && post.state.csrs@ == pre.state.csrs@
                && Emulator::<D>::harness_eq(pre, post, true, true)))
    &&& (!pre.watch_in_range(wadd(pre.regs()[spec_rs1(inst) as int], spec_imm_s(inst)), 1) && !pre.state.memory.addr_in_ram(wadd(pre.regs()[spec_rs1(inst) as int], spec_imm_s(inst))) && pre.state.memory.covered(wadd(pre.regs()[spec_rs1(inst) as int], spec_imm_s(inst))) ==> (Emulator::<D>::mem_frame(pre, post)
                && post.regs() == pre.regs() && post.state.pc == pre.state.pc && post.state.npc == pre.state.npc && post.state.csrs@
                == pre.state.csrs@ && Emulator::<D>::harness_eq(pre, post, true, true)
                && (r is Ok || r == Err::<(), Exception>(Exception::AccessFault { addr: wadd(pre.regs()[spec_rs1(inst) as int], spec_imm_s(inst)) }))))
    &&& (!pre.watch_in_range(wadd(pre.regs()[spec_rs1(inst) as int], spec_imm_s(inst)), 1) && !pre.state.memory.addr_in_ram(wadd(pre.regs()[spec_rs1(inst) as int], spec_imm_s(inst))) && !pre.state.memory.covered(wadd(pre.regs()[spec_rs1(inst) as int], spec_imm_s(inst))) ==> (r == Err::<(), Exception>(
                Exception::AccessFault { addr: wadd(pre.regs()[spec_rs1(inst) as int], spec_imm_s(inst)) },
            ) && *post == *pre))
}

/// Exactly what `sh`'s handler contract states, as a relation between
/// the emulator before and after, for lifting through the execution loop.
pub open spec fn op_sh_effect<D>(
    pre: &Emulator<D>,
    post: &Emulator<D>,
    r: Result<(), Exception>,
    inst: u32,
    pc: u64,
) -> bool {
    &&& (pre.watch_in_range(wadd(pre.regs()[spec_rs1(inst) as int], spec_imm_s(inst)), 2) ==> (r is Ok && post.state == pre.state
                && Emulator::<D>::harness_eq(pre, post, false, true) && (exists|k: u64|
                k < 2 && post.event == Event::WatchWrite(wadd(wadd(pre.regs()[spec_rs1(inst) as int], spec_imm_s(inst)), k)) && pre.watchpoints@.contains(wadd(wadd(pre.regs()[spec_rs1(inst) as int], spec_imm_s(inst)), k)))))
    &&& (!pre.watch_in_range(wadd(pre.regs()[spec_rs1(inst) as int], spec_imm_s(inst)), 2) && (pre.state.memory.addr_in_ram(wadd(pre.regs()[spec_rs1(inst) as int], spec_imm_s(inst))) && pre.state.memory.range_in_ram(wadd(pre.regs()[spec_rs1(inst) as int], spec_imm_s(inst)), 2)) ==> (r is Ok && post.state.memory.ram() == spec_store(
                pre.state.memory.ram(),
                pre.state.memory.ram_off(wadd(pre.regs()[spec_rs1(inst) as int], spec_imm_s(inst))),
                spec_u16_to_le_bytes((pre.regs()[spec_rs2(inst) as int] & 0xFFFF) as u16),
            ) && post.state.memory.regions() == pre.state.memory.regions() && post.state.memory.base_addr() == pre.state.memory.base_addr() && post.state.memory.ram_size() == pre.state.memory.ram_size() && post.regs()
                == pre.regs() && post.state.pc == pre.state.pc && post.state.npc == pre.state.npc && post.state.csrs@ == pre.state.csrs@
                && Emulator::<D>::harness_eq(pre, post, true, true)))
    &&& (!pre.watch_in_range(wadd(pre.regs()[spec_rs1(inst) as int], spec_imm_s(inst)), 2) && pre.state.memory.addr_in_ram(wadd(pre.regs()[spec_rs1(inst) as int], spec_imm_s(inst)))
                && !pre.state.memory.range_in_ram(wadd(pre.regs()[spec_rs1(inst) as int], spec_imm_s(inst)), 2) ==> (r == Err::<(), Exception>(
                Exception::AccessFault { addr: wadd(pre.regs()[spec_rs1(inst) as int], spec_imm_s(inst)) },
            ) && *post == *pre))
    &&& (!pre.watch_in_range(wadd(pre.regs()[spec_rs1(inst) as int], spec_imm_s(inst)), 2) && !pre.state.memory.addr_in_ram(wadd(pre.regs()[spec_rs1(inst) as int], spec_imm_s(inst))) && pre.state.memory.covered(wadd(pre.regs()[spec_rs1(inst) as int], spec_imm_s(inst))) ==> (Emulator::<D>::mem_frame(pre, post)
                && post.regs() == pre.regs() && post.state.pc == pre.state.pc && post.state.npc == pre.state.npc && post.state.csrs@
                == pre.state.csrs@ && Emulator::<D>::harness_eq(pre, post, true, true)
                && (r is Ok || r == Err::<(), Exception>(Exception::AccessFault { addr: wadd(pre.regs()[spec_rs1(inst) as int], spec_imm_s(inst)) }))))
    &&& (!pre.watch_in_range(wadd(pre.regs()[spec_rs1(inst) as int], spec_imm_s(inst)), 2) && !pre.state.memory.addr_in_ram(wadd(pre.regs()[spec_rs1(inst) as int], spec_imm_s(inst))) && !pre.state.memory.covered(wadd(pre.regs()[spec_rs1(inst) as int], spec_imm_s(inst))) ==> (r == Err::<(), Exception>(
                Exception::AccessFault { addr: wadd(pre.regs()[spec_rs1(inst) as int], spec_imm_s(inst)) },
            ) && *post == *pre))
}

/// Exactly what `sw`'s handler contract states, as a relation between
/// the emulator before and after, for lifting through the execution loop.
pub open spec fn op_sw_effect<D>(
    pre: &Emulator<D>,
    post: &Emulator<D>,
    r: Result<(), Exception>,
    inst: u32,
    pc: u64,
) -> bool {
    &&& (pre.watch_in_range(wadd(pre.regs()[spec_rs1(inst) as int], spec_imm_s(inst)), 4) ==> (r is Ok && post.state == pre.state
                && Emulator::<D>::harness_eq(pre, post, false, true) && (exists|k: u64|
                k < 4 && post.event == Event::WatchWrite(wadd(wadd(pre.regs()[spec_rs1(inst) as int], spec_imm_s(inst)), k)) && pre.watchpoints@.contains(wadd(wadd(pre.regs()[spec_rs1(inst) as int], spec_imm_s(inst)), k)))))
    &&& (!pre.watch_in_range(wadd(pre.regs()[spec_rs1(inst) as int], spec_imm_s(inst)), 4) && (pre.state.memory.addr_in_ram(wadd(pre.regs()[spec_rs1(inst) as int], spec_imm_s(inst))) && pre.state.memory.range_in_ram(wadd(pre.regs()[spec_rs1(inst) as int], spec_imm_s(inst)), 4)) ==> (r is Ok && post.state.memory.ram() == spec_store(
                pre.state.memory.ram(),
                pre.state.memory.ram_off(wadd(pre.regs()[spec_rs1(inst) as int], spec_imm_s(inst))),
                spec_u32_to_le_bytes((pre.regs()[spec_rs2(inst) as int] & 0xFFFFFFFF) as u32),
            ) && post.state.memory.regions() == pre.state.memory.regions() && post.state.memory.base_addr() == pre.state.memory.base_addr() && post.state.memory.ram_size() == pre.state.memory.ram_size() && post.regs()
                == pre.regs() && post.state.pc == pre.state.pc && post.state.npc == pre.state.npc && post.state.csrs@ == pre.state.csrs@
                && Emulator::<D>::harness_eq(pre, post, true, true)))
    &&& (!pre.watch_in_range(wadd(pre.regs()[spec_rs1(inst) as int], spec_imm_s(inst)), 4) && pre.state.memory.addr_in_ram(wadd(pre.regs()[spec_rs1(inst) as int], spec_imm_s(inst)))
                && !pre.state.memory.range_in_ram(wadd(pre.regs()[spec_rs1(inst) as int], spec_imm_s(inst)), 4) ==> (r == Err::<(), Exception>(
                Exception::AccessFault { addr: wadd(pre.regs()[spec_rs1(inst) as int], spec_imm_s(inst)) },
            ) && *post == *pre))
    &&& (!pre.watch_in_range(wadd(pre.regs()[spec_rs1(inst) as int], spec_imm_s(inst)), 4) && !pre.state.memory.addr_in_ram(wadd(pre.regs()[spec_rs1(inst) as int], spec_imm_s(inst))) && pre.state.memory.covered(wadd(pre.regs()[spec_rs1(inst) as int], spec_imm_s(inst))) ==> (Emulator::<D>::mem_frame(pre, post)
                && post.regs() == pre.regs() && post.state.pc == pre.state.pc && post.state.npc == pre.state.npc && post.state.csrs@
                == pre.state.csrs@ && Emulator::<D>::harness_eq(pre, post, true, true)
                && (r is Ok || r == Err::<(), Exception>(Exception::AccessFault { addr: wadd(pre.regs()[spec_rs1(inst) as int], spec_imm_s(inst)) }))))
    &&& (!pre.watch_in_range(wadd(pre.regs()[spec_rs1(inst) as int], spec_imm_s(inst)), 4) && !pre.state.memory.addr_in_ram(wadd(pre.regs()[spec_rs1(inst) as int], spec_imm_s(inst))) && !pre.state.memory.covered(wadd(pre.regs()[spec_rs1(inst) as int], spec_imm_s(inst))) ==> (r == Err::<(), Exception>(
                Exception::AccessFault { addr: wadd(pre.regs()[spec_rs1(inst) as int], spec_imm_s(inst)) },
            ) && *post == *pre))
}

/// Exactly what `sd`'s handler contract states, as a relation between
/// the emulator before and after, for lifting through the execution loop.
pub open spec fn op_sd_effect<D>(
    pre: &Emulator<D>,
    post: &Emulator<D>,
    r: Result<(), Exception>,
    inst: u32,
    pc: u64,
) -> bool {
    &&& (pre.watch_in_range(wadd(pre.regs()[spec_rs1(inst) as int], spec_imm_s(inst)), 8) ==> (r is Ok && post.state == pre.state
                && Emulator::<D>::harness_eq(pre, post, false, true) && (exists|k: u64|
                k < 8 && post.event == Event::WatchWrite(wadd(wadd(pre.regs()[spec_rs1(inst) as int], spec_imm_s(inst)), k)) && pre.watchpoints@.contains(wadd(wadd(pre.regs()[spec_rs1(inst) as int], spec_imm_s(inst)), k)))))
    &&& (!pre.watch_in_range(wadd(pre.regs()[spec_rs1(inst) as int], spec_imm_s(inst)), 8) && (pre.state.memory.addr_in_ram(wadd(pre.regs()[spec_rs1(inst) as int], spec_imm_s(inst))) && pre.state.memory.range_in_ram(wadd(pre.regs()[spec_rs1(inst) as int], spec_imm_s(inst)), 8)) ==> (r is Ok && post.state.memory.ram() == spec_store(
                pre.state.memory.ram(),
                pre.state.memory.ram_off(wadd(pre.regs()[spec_rs1(inst) as int], spec_imm_s(inst))),
                spec_u64_to_le_bytes(pre.regs()[spec_rs2(inst) as int]),
            ) && post.state.memory.regions() == pre.state.memory.regions() && post.state.memory.base_addr() == pre.state.memory.base_addr() && post.state.memory.ram_size() == pre.state.memory.ram_size() && post.regs()
                == pre.regs() && post.state.pc == pre.state.pc && post.state.npc == pre.state.npc && post.state.csrs@ == pre.state.csrs@
                && Emulator::<D>::harness_eq(pre, post, true, true)))
    &&& (!pre.watch_in_range(wadd(pre.regs()[spec_rs1(inst) as int], spec_imm_s(inst)), 8) && pre.state.memory.addr_in_ram(wadd(pre.regs()[spec_rs1(inst) as int], spec_imm_s(inst)))
                && !pre.state.memory.range_in_ram(wadd(pre.regs()[spec_rs1(inst) as int], spec_imm_s(inst)), 8) ==> (r == Err::<(), Exception>(
                Exception::AccessFault { addr: wadd(pre.regs()[spec_rs1(inst) as int], spec_imm_s(inst)) },
            ) && *post == *pre))
    &&& (!pre.watch_in_range(wadd(pre.regs()[spec_rs1(inst) as int], spec_imm_s(inst)), 8) && !pre.state.memory.addr_in_ram(wadd(pre.regs()[spec_rs1(inst) as int], spec_imm_s(inst))) && pre.state.memory.covered(wadd(pre.regs()[spec_rs1(inst) as int], spec_imm_s(inst))) ==> (Emulator::<D>::mem_frame(pre, post)
                && post.regs() == pre.regs() && post.state.pc == pre.state.pc && post.state.npc == pre.state.npc && post.state.csrs@
                == pre.state.csrs@ && Emulator::<D>::harness_eq(pre, post, true, true)
                && (r is Ok || r == Err::<(), Exception>(Exception::AccessFault { addr: wadd(pre.regs()[spec_rs1(inst) as int], spec_imm_s(inst)) }))))
    &&& (!pre.watch_in_range(wadd(pre.regs()[spec_rs1(inst) as int], spec_imm_s(inst)), 8) && !pre.state.memory.addr_in_ram(wadd(pre.regs()[spec_rs1(inst) as int], spec_imm_s(inst))) && !pre.state.memory.covered(wadd(pre.regs()[spec_rs1(inst) as int], spec_imm_s(inst))) ==> (r == Err::<(), Exception>(
                Exception::AccessFault { addr: wadd(pre.regs()[spec_rs1(inst) as int], spec_imm_s(inst)) },
            ) && *post == *pre))
}

} // verus!
