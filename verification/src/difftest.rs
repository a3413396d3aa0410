//! Cross-checking against a reference model: a snapshot of the architectural
//! state that two implementations can exchange and compare, and the
//! interface a co-simulated model implements.

use vstd::prelude::*;
use vstd::bytes::spec_u16_from_le_bytes;
use vstd::bytes::spec_u32_from_le_bytes;
use vstd::bytes::spec_u64_from_le_bytes;

use crate::device::MmioDevice;
use crate::emu::Emulator;

verus! {

/// Which side of the comparison an implementation stands on.
#[derive(Debug, Clone, Copy, PartialEq, Eq, Structural)]
pub enum DiffMode {
    /// The implementation under test.
    Dut,
    /// The trusted reference.
    Reference,
}

/// The compared architectural state: the 32 general-purpose registers and
/// the program counter.
#[derive(Debug, Clone)]
pub struct DiffState {
    pub reg: Vec<u64>,
    pub pc: u64,
}

impl PartialEq for DiffState {
    fn eq(&self, other: &DiffState) -> (r: bool) {
        if self.pc != other.pc {
            return false;
        }
        if self.reg.len() != other.reg.len() {
            return false;
        }
        let n = self.reg.len();
        let mut i: usize = 0;
        while i < n
            invariant
                n == self.reg@.len(),
                n == other.reg@.len(),
                i <= n,
                self.pc == other.pc,
                forall|j: int| 0 <= j < i ==> self.reg@[j] == other.reg@[j],
            decreases n - i,
        {
            if self.reg[i] != other.reg[i] {
                return false;
            }
            i = i + 1;
        }
        proof {
            assert(self.reg@ =~= other.reg@);
        }
        true
    }
}

impl vstd::std_specs::cmp::PartialEqSpecImpl for DiffState {
    open spec fn obeys_eq_spec() -> bool {
        true
    }

    open spec fn eq_spec(&self, other: &DiffState) -> bool {
        self.reg@ == other.reg@ && self.pc == other.pc
    }
}

/// What a co-simulated implementation offers: step one instruction, expose
/// and overwrite the architectural state, and reach its memory.
pub trait Difftest: Sized {
    /// The implementation's own well-formedness, carried through every
    /// call.
    spec fn inv(&self) -> bool;

    /// Prepare the implementation for stepping.
    fn init(&mut self)
        requires
            old(self).inv(),
        ensures
            final(self).inv(),
    ;

    /// Which side this implementation is.
    fn mode(&self) -> (r: DiffMode);

    /// Snapshot the compared state.
    fn self_state(&self) -> (r: DiffState)
        requires
            self.inv(),
        ensures
            r.reg@.len() == 32,
    ;

    /// Execute one instruction; report whether that worked.
    fn step(&mut self) -> (r: bool)
        requires
            old(self).inv(),
        ensures
            final(self).inv(),
    ;

    /// Overwrite the register file.
    fn set_regs(&mut self, regs: &[u64])
        requires
            old(self).inv(),
            regs@.len() == 32,
        ensures
            final(self).inv(),
    ;

    /// Aim the program counter.
    fn set_pc(&mut self, pc: u64)
        requires
            old(self).inv(),
        ensures
            final(self).inv(),
    ;

    /// Read up to eight bytes of memory, little-endian; 0 when the access
    /// fails.
    fn get_mem(&mut self, addr: u64, size: usize) -> (r: u64)
        requires
            old(self).inv(),
            size <= 8,
        ensures
            final(self).inv(),
    ;

    /// Write the low `len` bytes of `data` to memory, little-endian.
    fn set_mem(&mut self, addr: u64, data: u64, len: usize)
        requires
            old(self).inv(),
            len <= 8,
        ensures
            final(self).inv(),
    ;
}

impl<D: MmioDevice> Difftest for Emulator<D> {
    open spec fn inv(&self) -> bool {
        self.wf()
    }

    fn init(&mut self) {
    }

    fn mode(&self) -> (r: DiffMode) {
        DiffMode::Dut
    }

    fn self_state(&self) -> (r: DiffState)
        ensures
            r.reg@ == self.regs(),
            r.pc == self.state.pc,
    {
        DiffState { reg: self.state.get_regs().clone(), pc: self.state.get_pc() }
    }

    fn step(&mut self) -> (r: bool) {
        match self.steps(1) {
            Ok(_) => true,
            Err(_) => false,
        }
    }

    fn set_regs(&mut self, regs: &[u64]) {
        let mut i: u64 = 0;
        while i < 32
            invariant
                self.wf(),
                regs@.len() == 32,
            decreases 32 - i,
        {
            let v = regs[i as usize];
            let _ = self.set_reg(i, v);
            i = i + 1;
        }
    }

    fn set_pc(&mut self, pc: u64) {
        self.set_npc(pc);
    }

    fn get_mem(&mut self, addr: u64, size: usize) -> (r: u64)
        ensures
            old(self).state.memory.addr_in_ram(addr) && size == 1 ==> r == old(
                self,
            ).state.memory.ram()[old(self).state.memory.ram_off(addr)] as u64,
            old(self).state.memory.range_in_ram(addr, 2) && size == 2 ==> r
                == spec_u16_from_le_bytes(
                old(self).state.memory.ram().subrange(
                    old(self).state.memory.ram_off(addr),
                    old(self).state.memory.ram_off(addr) + 2,
                ),
            ) as u64,
            old(self).state.memory.range_in_ram(addr, 4) && size == 4 ==> r
                == spec_u32_from_le_bytes(
                old(self).state.memory.ram().subrange(
                    old(self).state.memory.ram_off(addr),
                    old(self).state.memory.ram_off(addr) + 4,
                ),
            ) as u64,
            old(self).state.memory.range_in_ram(addr, 8) && size == 8 ==> r
                == spec_u64_from_le_bytes(
                old(self).state.memory.ram().subrange(
                    old(self).state.memory.ram_off(addr),
                    old(self).state.memory.ram_off(addr) + 8,
                ),
            ),
    {
        if size == 1 {
            match self.state.memory.read_byte(addr) {
                Ok(b) => b as u64,
                Err(_) => 0,
            }
        } else if size == 2 {
            match self.state.memory.read_halfword(addr) {
                Ok(h) => h as u64,
                Err(_) => 0,
            }
        } else if size == 4 {
            match self.state.memory.read_word(addr) {
                Ok(w) => w as u64,
                Err(_) => 0,
            }
        } else if size == 8 {
            match self.state.memory.read_doubleword(addr) {
                Ok(d) => d,
                Err(_) => 0,
            }
        } else {
            match self.read_memory(addr, size) {
                Ok(bytes) => {
                    let mut acc: u64 = 0;
                    let n = if bytes.len() < 8 {
                        bytes.len()
                    } else {
                        8
                    };
                    let mut k: usize = 0;
                    while k < n
                        invariant
                            n <= 8,
                            n <= bytes@.len(),
                            k <= n,
                        decreases n - k,
                    {
                        let shift: u64 = 8 * (k as u64);
                        acc = acc | ((bytes[k] as u64) << shift);
                        k = k + 1;
                    }
                    acc
                },
                Err(_) => 0,
            }
        }
    }

    fn set_mem(&mut self, addr: u64, data: u64, len: usize) {
        let bytes = crate::device::le_bytes_prefix(data, len);
        let _ = self.write_memory(addr, bytes.as_slice());
    }
}

} // verus!
