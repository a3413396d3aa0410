//! Architectural exceptions. Handlers never unwind: they deposit one of
//! these in the pending slot of the execution loop (or return it as an
//! error), and the loop inspects the slot after every step.

use vstd::prelude::*;

verus! {

#[derive(Debug, Clone, Copy, PartialEq, Eq, Structural)]
pub enum Exception {
    /// A taken branch or jump aimed at a target whose low bits are not a
    /// valid instruction address.
    InstructionAddressMisaligned { addr: u64 },
    /// A data access the bus rejected.
    AccessFault { addr: u64 },
    /// An instruction fetch the bus rejected.
    InstructionFault { addr: u64 },
    /// A word the decoder knows no descriptor for.
    IllegalInstruction { instruction: u32, addr: u64 },
    /// An environment call from the running program.
    EnvironmentCall,
    /// A breakpoint instruction.
    Breakpoint,
}

} // verus!
