//! A minimal field-level view of one raw instruction word, kept for callers
//! that only need the standard operand fields without the full decoder.

use vstd::prelude::*;

use crate::bits::spec_bits_32;
use crate::bits::BitSlice;

verus! {

/// An error from executing a raw word outside the full pipeline.
#[derive(Debug, Clone, Copy, PartialEq, Eq, Structural)]
pub enum ExecuteError {
    /// A word whose operation is recognised but not implemented here.
    UnimplementedInstruction(u32),
    /// A word no descriptor matches.
    IllegalInstruction(u32),
    /// A memory access the bus rejected.
    MemoryAccessError(u64),
}

/// One raw base-integer instruction word.
#[derive(Debug, Clone, Copy, PartialEq, Eq, Structural)]
pub struct RV64I {
    instruction: u32,
}

impl RV64I {
    /// The wrapped word.
    pub closed spec fn word(&self) -> u32 {
        self.instruction
    }

    /// Wrap a word.
    pub fn new(instruction: u32) -> (r: RV64I)
        ensures
            r.word() == instruction,
    {
        RV64I { instruction }
    }

    /// The standard fields: opcode, destination, both sources, and the
    /// minor opcode.
    pub fn decode(&self) -> (r: (u32, u32, u32, u32, u32))
        ensures
            r.0 == self.word() & 0x7F,
            r.1 == spec_bits_32(self.word(), 7, 12) as u32,
            r.2 == spec_bits_32(self.word(), 15, 20) as u32,
            r.3 == spec_bits_32(self.word(), 20, 25) as u32,
            r.4 == spec_bits_32(self.word(), 12, 15) as u32,
    {
        let opcode = self.instruction & 0x7F;
        let rd = (self.instruction.bit_range(7usize..12usize)) as u32;
        let rs1 = (self.instruction.bit_range(15usize..20usize)) as u32;
        let rs2 = (self.instruction.bit_range(20usize..25usize)) as u32;
        let funct3 = (self.instruction.bit_range(12usize..15usize)) as u32;
        (opcode, rd, rs1, rs2, funct3)
    }
}

} // verus!
