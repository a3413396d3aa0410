//! The processor state: 32 general-purpose registers with `x0` hardwired to
//! zero, the two-phase program counter (`pc` holds the instruction being
//! executed, `npc` the next one; `sync_pc` commits `npc`), a sparse CSR map,
//! and the bus.

use vstd::prelude::*;
use vstd::bytes::*;

use crate::config::EmuConfig;
use crate::device::MmioDevice;
use crate::mem::Memory;
use crate::mem::MemoryError;

verus! {

broadcast use vstd::std_specs::hash::group_hash_axioms;

/// An error from the processor state.
#[derive(Debug)]
pub enum StateError {
    /// A register number at or above 32.
    InvalidRegister(usize),
    /// A CSR number with no entry in the map.
    InvalidCsr(u16),
    /// The bus rejected an access.
    Memory(MemoryError),
    /// A fetch did not produce a full instruction word.
    InvalidInstructionBytes(u64),
}

/// How execution proceeds while a debugger is attached.
#[derive(Debug, Clone, Copy, PartialEq, Eq, Structural)]
pub enum ExecMode {
    /// Free run, no debugger in control.
    Free,
    /// Execute exactly one instruction.
    Step,
    /// Run until something stops execution.
    Continue,
    /// Step while the program counter stays inside `[start, end)`.
    RangeStep(u64, u64),
}

/// Where the execution loop stands.
#[derive(Debug, Clone, Copy, PartialEq, Eq, Structural)]
#[non_exhaustive]
pub enum ExecState {
    Idle,
    Running,
    End,
}

/// An observable occurrence surfaced from one step.
#[derive(Debug, Clone, Copy, PartialEq, Eq, Structural)]
#[non_exhaustive]
pub enum Event {
    /// Nothing notable happened.
    Quiet,
    Halted,
    Break,
    WatchWrite(u64),
    WatchRead(u64),
}

/// The CPU state.
pub struct State<D> {
    /// The register file; entry 0 stays 0.
    pub registers: Vec<u64>,
    /// The address of the instruction being executed.
    pub pc: u64,
    /// The address of the next instruction; handlers overwrite this to
    /// branch.
    pub npc: u64,
    /// The sparse CSR map.
    pub csrs: std::collections::HashMap<u16, u64>,
    /// The bus.
    pub memory: Memory<D>,
}

impl<D> State<D> {
    /// Well-formedness: exactly 32 registers with `x0` reading zero, and a
    /// well-formed bus whose regions are sorted for lookup.
    pub open spec fn wf(&self) -> bool {
        &&& self.registers@.len() == 32
        &&& self.registers@[0] == 0
        &&& self.memory.wf()
        &&& self.memory.regions_sorted()
    }

    /// The register file as a sequence.
    pub open spec fn regs(&self) -> Seq<u64> {
        self.registers@
    }
}

/// The register file with register `r` set to `v`; a write to register 0 is
/// dropped.
pub open spec fn regs_with<D>(s: &State<D>, r: int, v: u64) -> Seq<u64> {
    if r == 0 {
        s.regs()
    } else {
        s.regs().update(r, v)
    }
}


/// Register 0 is hardwired: in any well-formed state it reads as zero, and
/// writing any value to it leaves the register file unchanged.
pub proof fn lemma_x0_hardwired<D>(s: &State<D>, v: u64)
    requires
        s.wf(),
    ensures
        s.regs()[0] == 0,
        regs_with(s, 0, v) == s.regs(),
{
}

impl<D: MmioDevice> State<D> {
    /// Fresh state: all registers zero and both program counters at the
    /// configured boot address, over the given bus.
    pub fn new(config: &EmuConfig, memory: Memory<D>) -> (r: State<D>)
        requires
            memory.wf(),
            memory.regions_sorted(),
        ensures
            r.wf(),
            r.regs() == Seq::new(32, |i: int| 0u64),
            r.pc == config.memory.boot_pc,
            r.npc == config.memory.boot_pc,
            r.csrs@ == Map::<u16, u64>::empty(),
            r.memory == memory,
    {
        let mut registers: Vec<u64> = Vec::new();
        let mut i: usize = 0;
        while i < 32
            invariant
                i <= 32,
                registers@.len() == i,
                forall|k: int| 0 <= k < i ==> registers@[k] == 0u64,
            decreases 32 - i,
        {
            registers.push(0);
            i = i + 1;
        }
        proof {
            assert(registers@ =~= Seq::new(32, |i: int| 0u64));
        }
        State {
            registers,
            pc: config.memory.boot_pc,
            npc: config.memory.boot_pc,
            csrs: std::collections::HashMap::new(),
            memory,
        }
    }

    /// Read `size` bytes from the bus.
    pub fn read_memory(&mut self, addr: u64, size: usize) -> (r: Result<Vec<u8>, StateError>)
        requires
            old(self).wf(),
        ensures
            final(self).wf(),
            final(self).regs() == old(self).regs(),
            final(self).pc == old(self).pc,
            final(self).npc == old(self).npc,
            final(self).csrs@ == old(self).csrs@,
            final(self).memory.ram() == old(self).memory.ram(),
            old(self).memory.addr_in_ram(addr) && old(self).memory.range_in_ram(addr, size as nat) ==> (r matches Ok(v) && v@ == old(self).memory.ram().subrange(
                old(self).memory.ram_off(addr),
                old(self).memory.ram_off(addr) + size,
            )),
            !old(self).memory.addr_in_ram(addr) && !old(self).memory.covered(addr) ==> (r
                matches Err(StateError::Memory(MemoryError::OutOfBounds { addr: a, size: n })) && a
                == addr && n == size),
    {
        match self.memory.read(addr, size) {
            Ok(v) => Ok(v),
            Err(e) => Err(StateError::Memory(e)),
        }
    }

    /// Write bytes through the bus.
    pub fn write_memory(&mut self, addr: u64, data: &[u8]) -> (r: Result<(), StateError>)
        requires
            old(self).wf(),
        ensures
            final(self).wf(),
            final(self).regs() == old(self).regs(),
            final(self).pc == old(self).pc,
            final(self).npc == old(self).npc,
            final(self).csrs@ == old(self).csrs@,
            old(self).memory.addr_in_ram(addr) && old(self).memory.range_in_ram(addr, data@.len()) ==> (r matches Ok(_) && final(self).memory.ram() == crate::mem::spec_store(
                old(self).memory.ram(),
                old(self).memory.ram_off(addr),
                data@,
            )),
            !old(self).memory.addr_in_ram(addr) && old(self).memory.covered(addr) ==> final(self).memory.ram() == old(self).memory.ram(),
            !old(self).memory.addr_in_ram(addr) && !old(self).memory.covered(addr) ==> (r
                matches Err(StateError::Memory(MemoryError::OutOfBounds { addr: a, size: n })) && a
                == addr && n == data@.len()),
    {
        match self.memory.write(addr, data) {
            Ok(_) => Ok(()),
            Err(e) => Err(StateError::Memory(e)),
        }
    }

    /// Fetch the 32-bit instruction word at `pc`.
    pub fn fetch_instruction(&mut self, pc: u64) -> (r: Result<u32, StateError>)
        requires
            old(self).wf(),
        ensures
            final(self).wf(),
            final(self).regs() == old(self).regs(),
            final(self).pc == old(self).pc,
            final(self).npc == old(self).npc,
            final(self).csrs@ == old(self).csrs@,
            final(self).memory.ram() == old(self).memory.ram(),
            old(self).memory.range_in_ram(pc, 4) ==> (r matches Ok(w) && w
                == spec_u32_from_le_bytes(
                old(self).memory.ram().subrange(
                    old(self).memory.ram_off(pc),
                    old(self).memory.ram_off(pc) + 4,
                ),
            ) && *final(self) == *old(self)),
            old(self).memory.addr_in_ram(pc) && !old(self).memory.range_in_ram(pc, 4) ==> (r
                is Err && *final(self) == *old(self)),
            !old(self).memory.addr_in_ram(pc) && !old(self).memory.covered(pc) ==> (r is Err
                && *final(self) == *old(self)),
    {
        match self.memory.read_word(pc) {
            Ok(w) => Ok(w),
            Err(e) => Err(StateError::Memory(e)),
        }
    }

    /// The whole register file.
    pub fn get_regs(&self) -> (r: &Vec<u64>)
        ensures
            r@ == self.regs(),
    {
        &self.registers
    }

    /// Read register `reg`; register 0 always reads 0, whatever was stored.
    pub fn get_reg(&self, reg: u64) -> (r: Result<u64, StateError>)
        requires
            self.wf(),
        ensures
            reg < 32 ==> r == Ok::<u64, StateError>(self.regs()[reg as int]),
            reg == 0 ==> r == Ok::<u64, StateError>(0u64),
            reg >= 32 ==> r == Err::<u64, StateError>(StateError::InvalidRegister(reg as usize)),
    {
        if reg >= 32 {
            return Err(StateError::InvalidRegister(reg as usize));
        }
        let idx = reg as usize;
        if idx == 0 {
            Ok(0)
        } else {
            Ok(self.registers[idx])
        }
    }

    /// Write register `reg`; a write to register 0 is silently dropped.
    pub fn set_reg(&mut self, reg: u64, value: u64) -> (r: Result<(), StateError>)
        requires
            old(self).wf(),
        ensures
            final(self).wf(),
            final(self).pc == old(self).pc,
            final(self).npc == old(self).npc,
            final(self).csrs@ == old(self).csrs@,
            final(self).memory == old(self).memory,
            reg < 32 ==> (r matches Ok(_) && final(self).regs() == regs_with(
                old(self),
                reg as int,
                value,
            )),
            reg >= 32 ==> (r == Err::<(), StateError>(StateError::InvalidRegister(reg as usize))
                && final(self).regs() == old(self).regs()),
    {
        if reg >= 32 {
            return Err(StateError::InvalidRegister(reg as usize));
        }
        let idx = reg as usize;
        if idx != 0 {
            self.registers.set(idx, value);
        }
        Ok(())
    }

    /// The address of the instruction being executed.
    pub fn get_pc(&self) -> (r: u64)
        ensures
            r == self.pc,
    {
        self.pc
    }

    /// The address of the next instruction.
    pub fn get_npc(&self) -> (r: u64)
        ensures
            r == self.npc,
    {
        self.npc
    }

    /// Set the next program counter; this is how branches retarget
    /// execution.
    pub fn set_npc(&mut self, value: u64)
        requires
            old(self).wf(),
        ensures
            final(self).wf(),
            *final(self) == (State { npc: value, ..*old(self) }),
    {
        self.npc = value;
    }

    /// Commit the next program counter into `pc`.
    pub fn sync_pc(&mut self)
        requires
            old(self).wf(),
        ensures
            final(self).wf(),
            *final(self) == (State { pc: old(self).npc, ..*old(self) }),
    {
        self.pc = self.npc;
    }

    /// Read CSR `csr`; a number with no entry is an invalid CSR, not zero.
    pub fn get_csr(&self, csr: u16) -> (r: Result<u64, StateError>)
        requires
            self.wf(),
        ensures
            self.csrs@.contains_key(csr) ==> r == Ok::<u64, StateError>(self.csrs@[csr]),
            !self.csrs@.contains_key(csr) ==> r == Err::<u64, StateError>(
                StateError::InvalidCsr(csr),
            ),
    {
        match self.csrs.get(&csr) {
            Some(v) => Ok(*v),
            None => Err(StateError::InvalidCsr(csr)),
        }
    }

    /// Write CSR `csr`, creating the entry if absent.
    pub fn set_csr(&mut self, csr: u16, value: u64) -> (r: Result<(), StateError>)
        requires
            old(self).wf(),
        ensures
            final(self).wf(),
            r is Ok,
            final(self).regs() == old(self).regs(),
            final(self).pc == old(self).pc,
            final(self).npc == old(self).npc,
            final(self).memory == old(self).memory,
            final(self).csrs@ == old(self).csrs@.insert(csr, value),
    {
        self.csrs.insert(csr, value);
        Ok(())
    }
}


/// The conventional assembler alias of general-purpose register `reg`.
pub open spec fn spec_register_alias(reg: usize) -> Seq<char> {
    if reg == 0 { "zero"@ } else if reg == 1 { "ra"@ } else if reg == 2 { "sp"@ }
    else if reg == 3 { "gp"@ } else if reg == 4 { "tp"@ } else if reg == 5 { "t0"@ }
    else if reg == 6 { "t1"@ } else if reg == 7 { "t2"@ } else if reg == 8 { "s0/fp"@ }
    else if reg == 9 { "s1"@ } else if reg == 10 { "a0"@ } else if reg == 11 { "a1"@ }
    else if reg == 12 { "a2"@ } else if reg == 13 { "a3"@ } else if reg == 14 { "a4"@ }
    else if reg == 15 { "a5"@ } else if reg == 16 { "a6"@ } else if reg == 17 { "a7"@ }
    else if reg == 18 { "s2"@ } else if reg == 19 { "s3"@ } else if reg == 20 { "s4"@ }
    else if reg == 21 { "s5"@ } else if reg == 22 { "s6"@ } else if reg == 23 { "s7"@ }
    else if reg == 24 { "s8"@ } else if reg == 25 { "s9"@ } else if reg == 26 { "s10"@ }
    else if reg == 27 { "s11"@ } else if reg == 28 { "t3"@ } else if reg == 29 { "t4"@ }
    else if reg == 30 { "t5"@ } else if reg == 31 { "t6"@ } else { "unknown"@ }
}

/// The conventional assembler alias of general-purpose register `reg`, for
/// diagnostics.
pub fn get_register_alias(reg: usize) -> (r: &'static str)
    ensures
        r@ == spec_register_alias(reg),
{
    match reg {
        0 => "zero",
        1 => "ra",
        2 => "sp",
        3 => "gp",
        4 => "tp",
        5 => "t0",
        6 => "t1",
        7 => "t2",
        8 => "s0/fp",
        9 => "s1",
        10 => "a0",
        11 => "a1",
        12 => "a2",
        13 => "a3",
        14 => "a4",
        15 => "a5",
        16 => "a6",
        17 => "a7",
        18 => "s2",
        19 => "s3",
        20 => "s4",
        21 => "s5",
        22 => "s6",
        23 => "s7",
        24 => "s8",
        25 => "s9",
        26 => "s10",
        27 => "s11",
        28 => "t3",
        29 => "t4",
        30 => "t5",
        31 => "t6",
        _ => "unknown",
    }
}

} // verus!
