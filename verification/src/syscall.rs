//! System-call decisions for programs that trap into the environment: which
//! calls exist, which arguments they accept, and what bytes they hand out.
//! The effects that need the host (exiting the process, writing to its
//! standard streams) are returned as values for the surrounding program to
//! perform.

use vstd::prelude::*;

use crate::device::MmioDevice;
use crate::mem::Memory;
use crate::mem::MemoryError;

verus! {

/// A system-call error.
#[derive(Debug)]
pub enum SyscallError {
    /// A call number nothing here implements.
    Unimplemented(u64),
    /// The bus rejected reading the call's buffer.
    Memory(MemoryError),
    /// An argument outside what the call accepts.
    InvalidArgument(String),
}

/// The register arguments of one system call.
#[derive(Debug, Clone, Copy, PartialEq, Eq, Structural)]
pub struct SyscallContext {
    /// The call number.
    pub number: u64,
    pub arg0: u64,
    pub arg1: u64,
    pub arg2: u64,
    pub arg3: u64,
    pub arg4: u64,
}

/// What the host must do to complete a successful call.
#[derive(Debug)]
pub enum SyscallEffect {
    /// End the process with this status.
    Exit(i32),
    /// Write these bytes to stream 1 (standard output) or 2 (standard
    /// error), then return the count to the program.
    Output { fd: u64, data: Vec<u8> },
    /// Return this value to the program with no host action.
    Ret(u64),
}

/// Decide one system call: exit and exit-group end the process with the
/// first argument as status; write hands out the buffer bytes read from
/// memory for descriptors 1 and 2 only; brk returns its argument unchanged
/// without allocating; everything else is unimplemented.
pub fn handle_syscall<D: MmioDevice>(ctx: &SyscallContext, memory: &mut Memory<D>) -> (r: Result<
    SyscallEffect,
    SyscallError,
>)
    requires
        old(memory).wf(),
        old(memory).regions_sorted(),
    ensures
        final(memory).wf(),
        final(memory).regions_sorted(),
        final(memory).ram() == old(memory).ram(),
        final(memory).base_addr() == old(memory).base_addr(),
        final(memory).ram_size() == old(memory).ram_size(),
        ctx.number == 93 || ctx.number == 94 ==> (r matches Ok(e) && e matches SyscallEffect::Exit(
            code,
        ) && code == ctx.arg0 as i32 && *final(memory) == *old(memory)),
        ctx.number == 214 ==> (r matches Ok(e) && e matches SyscallEffect::Ret(v) && v == ctx.arg0
            && *final(memory) == *old(memory)),
        ctx.number == 64 && ctx.arg0 != 1 && ctx.arg0 != 2 ==> ((r matches Err(e)
            && e is InvalidArgument) && *final(memory) == *old(memory)),
        ctx.number == 64 && (ctx.arg0 == 1 || ctx.arg0 == 2) && old(memory).addr_in_ram(ctx.arg1)
            && old(memory).range_in_ram(ctx.arg1, ctx.arg2 as usize as nat) ==> (r matches Ok(e)
            && e matches SyscallEffect::Output { fd, data } && fd == ctx.arg0 && data@ == old(memory).ram().subrange(
            old(memory).ram_off(ctx.arg1),
            old(memory).ram_off(ctx.arg1) + (ctx.arg2 as usize as int),
        ) && *final(memory) == *old(memory)),
        !(ctx.number == 93 || ctx.number == 94 || ctx.number == 64 || ctx.number == 214) ==> ((r
            matches Err(e) && e matches SyscallError::Unimplemented(n) && n == ctx.number) && *final(memory) == *old(memory)),
{
    if ctx.number == 93 || ctx.number == 94 {
        Ok(SyscallEffect::Exit(ctx.arg0 as i32))
    } else if ctx.number == 64 {
        let fd = ctx.arg0;
        if fd != 1 && fd != 2 {
            return Err(SyscallError::InvalidArgument("unsupported file descriptor".to_owned()));
        }
        match memory.read(ctx.arg1, ctx.arg2 as usize) {
            Ok(data) => Ok(SyscallEffect::Output { fd, data }),
            Err(e) => Err(SyscallError::Memory(e)),
        }
    } else if ctx.number == 214 {
        Ok(SyscallEffect::Ret(ctx.arg0))
    } else {
        Err(SyscallError::Unimplemented(ctx.number))
    }
}

} // verus!
