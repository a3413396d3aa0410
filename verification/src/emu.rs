//! The execution loop: fetch, decode, execute, with the two-phase program
//! counter, a pending-exception slot, an event ring, and the debugger's
//! breakpoint and watchpoint sets.
//!
//! One step commits `npc` into `pc`, stops with a `Break` event if a
//! debugger is attached and `pc` carries a software breakpoint, otherwise
//! fetches and decodes the word at `pc`, presets `npc` to the next
//! sequential instruction, and runs the handler. Handlers overwrite `npc`
//! to branch, deposit exceptions in the pending slot, raise events, and
//! mutate registers, memory and CSRs; they never panic and never touch `pc`.

use vstd::prelude::*;
use vstd::bytes::spec_u32_from_le_bytes;

use crate::config::DeviceFile;
use crate::config::EmuConfig;
use crate::decode::is_compressed;
use crate::decode::InstDecoder;
use crate::decode::OpKind;
use crate::device::MmioDevice;
use crate::devmgr::Device;
use crate::devmgr::DeviceError;
use crate::devmgr::DeviceManager;
use crate::exception::Exception;
use crate::mem::Memory;
use crate::ring::RingBuffer;
use crate::state::Event;
use crate::state::ExecMode;
use crate::state::ExecState;
use crate::state::State;
use crate::state::StateError;

verus! {

/// A wrapping 64-bit sum, as RV64 register arithmetic computes it.
pub open spec fn wadd(a: u64, b: u64) -> u64 {
    vstd::wrapping::u64_specs::wrapping_add(a, b)
}


/// What running the handler of `op` on word `w` at `pc` does: the
/// conjunction of that handler's contract, selected by operation. The
/// execution loop's contract lifts the handler semantics through this.
pub open spec fn op_effect<D>(
    op: OpKind,
    pre: &Emulator<D>,
    post: &Emulator<D>,
    r: Result<(), Exception>,
    w: u32,
    pc: u64,
) -> bool {
    match op {
        OpKind::Lui => crate::rv64i::op_lui_effect(pre, post, r, w, pc),
        OpKind::Auipc => crate::rv64i::op_auipc_effect(pre, post, r, w, pc),
        OpKind::Jal => crate::rv64i::op_jal_effect(pre, post, r, w, pc),
        OpKind::Jalr => crate::rv64i::op_jalr_effect(pre, post, r, w, pc),
        OpKind::Beq => crate::rv64i::op_beq_effect(pre, post, r, w, pc),
        OpKind::Bne => crate::rv64i::op_bne_effect(pre, post, r, w, pc),
        OpKind::Blt => crate::rv64i::op_blt_effect(pre, post, r, w, pc),
        OpKind::Bge => crate::rv64i::op_bge_effect(pre, post, r, w, pc),
        OpKind::Bltu => crate::rv64i::op_bltu_effect(pre, post, r, w, pc),
        OpKind::Bgeu => crate::rv64i::op_bgeu_effect(pre, post, r, w, pc),
        OpKind::Lb => crate::rv64i::op_lb_effect(pre, post, r, w, pc),
        OpKind::Lh => crate::rv64i::op_lh_effect(pre, post, r, w, pc),
        OpKind::Lw => crate::rv64i::op_lw_effect(pre, post, r, w, pc),
        OpKind::Lbu => crate::rv64i::op_lbu_effect(pre, post, r, w, pc),
        OpKind::Lhu => crate::rv64i::op_lhu_effect(pre, post, r, w, pc),
        OpKind::Sb => crate::rv64i::op_sb_effect(pre, post, r, w, pc),
        OpKind::Sh => crate::rv64i::op_sh_effect(pre, post, r, w, pc),
        OpKind::Sw => crate::rv64i::op_sw_effect(pre, post, r, w, pc),
        OpKind::Addi => crate::rv64i::op_addi_effect(pre, post, r, w, pc),
        OpKind::Slti => crate::rv64i::op_slti_effect(pre, post, r, w, pc),
        OpKind::Sltiu => crate::rv64i::op_sltiu_effect(pre, post, r, w, pc),
        OpKind::Xori => crate::rv64i::op_xori_effect(pre, post, r, w, pc),
        OpKind::Ori => crate::rv64i::op_ori_effect(pre, post, r, w, pc),
        OpKind::Andi => crate::rv64i::op_andi_effect(pre, post, r, w, pc),
        OpKind::Slli => crate::rv64i::op_slli_effect(pre, post, r, w, pc),
        OpKind::Srli => crate::rv64i::op_srli_effect(pre, post, r, w, pc),
        OpKind::Srai => crate::rv64i::op_srai_effect(pre, post, r, w, pc),
        OpKind::Add => crate::rv64i::op_add_effect(pre, post, r, w, pc),
        OpKind::Sub => crate::rv64i::op_sub_effect(pre, post, r, w, pc),
        OpKind::Sll => crate::rv64i::op_sll_effect(pre, post, r, w, pc),
        OpKind::Slt => crate::rv64i::op_slt_effect(pre, post, r, w, pc),
        OpKind::Sltu => crate::rv64i::op_sltu_effect(pre, post, r, w, pc),
        OpKind::Xor => crate::rv64i::op_xor_effect(pre, post, r, w, pc),
        OpKind::Srl => crate::rv64i::op_srl_effect(pre, post, r, w, pc),
        OpKind::Sra => crate::rv64i::op_sra_effect(pre, post, r, w, pc),
        OpKind::Or => crate::rv64i::op_or_effect(pre, post, r, w, pc),
        OpKind::And => crate::rv64i::op_and_effect(pre, post, r, w, pc),
        OpKind::Fence => crate::rv64i::op_fence_effect(pre, post, r, w, pc),
        OpKind::Ecall => crate::rv64i::op_ecall_effect(pre, post, r, w, pc),
        OpKind::Ebreak => crate::rv64i::op_ebreak_effect(pre, post, r, w, pc),
        OpKind::Addiw => crate::rv64i::op_addiw_effect(pre, post, r, w, pc),
        OpKind::Slliw => crate::rv64i::op_slliw_effect(pre, post, r, w, pc),
        OpKind::Srliw => crate::rv64i::op_srliw_effect(pre, post, r, w, pc),
        OpKind::Sraiw => crate::rv64i::op_sraiw_effect(pre, post, r, w, pc),
        OpKind::Addw => crate::rv64i::op_addw_effect(pre, post, r, w, pc),
        OpKind::Subw => crate::rv64i::op_subw_effect(pre, post, r, w, pc),
        OpKind::Sllw => crate::rv64i::op_sllw_effect(pre, post, r, w, pc),
        OpKind::Srlw => crate::rv64i::op_srlw_effect(pre, post, r, w, pc),
        OpKind::Sraw => crate::rv64i::op_sraw_effect(pre, post, r, w, pc),
        OpKind::Ld => crate::rv64i::op_ld_effect(pre, post, r, w, pc),
        OpKind::Lwu => crate::rv64i::op_lwu_effect(pre, post, r, w, pc),
        OpKind::Sd => crate::rv64i::op_sd_effect(pre, post, r, w, pc),
        OpKind::Mul => crate::rv64m::op_mul_effect(pre, post, r, w, pc),
        OpKind::Mulh => crate::rv64m::op_mulh_effect(pre, post, r, w, pc),
        OpKind::Mulhsu => crate::rv64m::op_mulhsu_effect(pre, post, r, w, pc),
        OpKind::Mulhu => crate::rv64m::op_mulhu_effect(pre, post, r, w, pc),
        OpKind::Div => crate::rv64m::op_div_effect(pre, post, r, w, pc),
        OpKind::Divu => crate::rv64m::op_divu_effect(pre, post, r, w, pc),
        OpKind::Rem => crate::rv64m::op_rem_effect(pre, post, r, w, pc),
        OpKind::Remu => crate::rv64m::op_remu_effect(pre, post, r, w, pc),
        OpKind::Mulw => crate::rv64m::op_mulw_effect(pre, post, r, w, pc),
        OpKind::Divw => crate::rv64m::op_divw_effect(pre, post, r, w, pc),
        OpKind::Divuw => crate::rv64m::op_divuw_effect(pre, post, r, w, pc),
        OpKind::Remw => crate::rv64m::op_remw_effect(pre, post, r, w, pc),
        OpKind::Remuw => crate::rv64m::op_remuw_effect(pre, post, r, w, pc),
    }
}

/// The emulator: processor state, decoder, execution bookkeeping and the
/// debugger's address sets.
pub struct Emulator<D> {
    /// CPU state, including the bus.
    pub state: State<D>,
    /// Where the loop stands.
    pub exec_state: ExecState,
    /// How a debugger asked execution to proceed.
    pub exec_mode: ExecMode,
    /// The event of the current step.
    pub event: Event,
    /// The pending architectural exception, inspected after every step.
    pub exception: Option<Exception>,
    /// The trail of events, newest kept on overflow.
    pub event_list: RingBuffer<Event>,
    /// The instruction decoder.
    pub decoder: InstDecoder,
    /// Whether a debugger is attached.
    pub debugger: bool,
    /// Software breakpoint addresses, each held once.
    pub breakpoints: Vec<u64>,
    /// Hardware watchpoint addresses, each held once.
    pub watchpoints: Vec<u64>,
}

impl<D> Emulator<D> {
    /// Well-formedness of every part.
    pub open spec fn wf(&self) -> bool {
        &&& self.state.wf()
        &&& self.event_list.wf()
        &&& self.decoder.wf()
        &&& self.decoder.compressed().len() == 0
        &&& self.breakpoints@.no_duplicates()
        &&& self.watchpoints@.no_duplicates()
    }

    /// The register file.
    pub open spec fn regs(&self) -> Seq<u64> {
        self.state.regs()
    }

    /// Everything but the register file is unchanged between the two
    /// emulator states.
    pub open spec fn same_but_regs(pre: &Emulator<D>, post: &Emulator<D>) -> bool {
        &&& post.state.pc == pre.state.pc
        &&& post.state.npc == pre.state.npc
        &&& post.state.csrs@ == pre.state.csrs@
        &&& post.state.memory == pre.state.memory
        &&& Emulator::<D>::same_harness(pre, post)
    }

    /// The execution bookkeeping and debugger data are unchanged between
    /// the two emulator states.
    pub open spec fn same_harness(pre: &Emulator<D>, post: &Emulator<D>) -> bool {
        &&& post.exec_state == pre.exec_state
        &&& post.exec_mode == pre.exec_mode
        &&& post.event == pre.event
        &&& post.exception == pre.exception
        &&& post.event_list == pre.event_list
        &&& post.decoder == pre.decoder
        &&& post.debugger == pre.debugger
        &&& post.breakpoints@ == pre.breakpoints@
        &&& post.watchpoints@ == pre.watchpoints@
    }

    /// Whether some watchpoint falls in the `n`-byte range at `a`.
    pub open spec fn watch_in_range(&self, a: u64, n: u64) -> bool {
        exists|k: u64| k < n && self.watchpoints@.contains(wadd(a, k))
    }
}

/// Read register `r` of a well-formed state; register 0 is hardwired to 0.
pub(crate) fn reg_val_pub<D>(s: &State<D>, r: u64) -> (v: u64)
    requires
        s.wf(),
        r < 32,
    ensures
        v == s.regs()[r as int],
{
    s.registers[r as usize]
}

impl<D> Emulator<D> {
    /// The execution bookkeeping is unchanged, except that the event is
    /// only pinned when `keep_event` and the pending exception only when
    /// `keep_exception`.
    pub open spec fn harness_eq(
        pre: &Emulator<D>,
        post: &Emulator<D>,
        keep_event: bool,
        keep_exception: bool,
    ) -> bool {
        &&& post.exec_state == pre.exec_state
        &&& post.exec_mode == pre.exec_mode
        &&& keep_event ==> post.event == pre.event
        &&& keep_exception ==> post.exception == pre.exception
        &&& post.event_list == pre.event_list
        &&& post.decoder == pre.decoder
        &&& post.debugger == pre.debugger
        &&& post.breakpoints@ == pre.breakpoints@
        &&& post.watchpoints@ == pre.watchpoints@
    }

    /// What a conditional branch does: nothing when not taken; when taken,
    /// either record a misalignment exception for a target whose low two
    /// bits are not zero, leaving `npc` alone so the fault is observable,
    /// or retarget `npc`.
    pub open spec fn branch_effect(pre: &Emulator<D>, post: &Emulator<D>, taken: bool, t: u64) -> bool {
        if !taken {
            *post == *pre
        } else if t & 0b11 != 0 {
            &&& post.state == pre.state
            &&& post.exception == Some(
                crate::exception::Exception::InstructionAddressMisaligned { addr: t },
            )
            &&& Emulator::<D>::harness_eq(pre, post, true, false)
        } else {
            &&& post.state == (State { npc: t, ..pre.state })
            &&& Emulator::<D>::harness_eq(pre, post, true, true)
        }
    }

    /// The bus is unchanged but for device-internal state: same RAM, same
    /// region layout.
    pub open spec fn mem_frame(pre: &Emulator<D>, post: &Emulator<D>) -> bool {
        &&& post.state.memory.ram() == pre.state.memory.ram()
        &&& post.state.memory.base_addr() == pre.state.memory.base_addr()
        &&& post.state.memory.ram_size() == pre.state.memory.ram_size()
        &&& pre.state.memory.same_region_layout(&post.state.memory)
    }
}

impl<D: MmioDevice> Emulator<D> {
    /// The first watched address within the `n`-byte range at `a`, if any.
    pub(crate) fn first_watched(&self, a: u64, n: u64) -> (r: Option<u64>)
        requires
            n <= 8,
        ensures
            r is Some ==> exists|k: u64|
                k < n && r == Some(wadd(a, k)) && self.watchpoints@.contains(wadd(a, k)),
            r is None ==> !self.watch_in_range(a, n),
    {
        let mut k: u64 = 0;
        while k < n
            invariant
                n <= 8,
                k <= n,
                forall|j: u64| j < k ==> !self.watchpoints@.contains(wadd(a, j)),
            decreases n - k,
        {
            let probe = a.wrapping_add(k);
            if self.contains_watchpoint(probe) {
                proof {
                    assert(k < n && self.watchpoints@.contains(wadd(a, k)) && Some(probe)
                        == Some(wadd(a, k)));
                }
                return Some(probe);
            }
            k = k + 1;
        }
        None
    }

    /// Whether `addr` is a watchpoint.
    fn contains_watchpoint(&self, addr: u64) -> (r: bool)
        ensures
            r == self.watchpoints@.contains(addr),
    {
        let n = self.watchpoints.len();
        let mut i: usize = 0;
        while i < n
            invariant
                n == self.watchpoints@.len(),
                i <= n,
                forall|j: int| 0 <= j < i ==> self.watchpoints@[j] != addr,
            decreases n - i,
        {
            if self.watchpoints[i] == addr {
                return true;
            }
            i = i + 1;
        }
        false
    }

    /// Whether `addr` carries a software breakpoint.
    pub fn has_sw_breakpoint(&self, addr: u64) -> (r: bool)
        ensures
            r == self.breakpoints@.contains(addr),
    {
        let n = self.breakpoints.len();
        let mut i: usize = 0;
        while i < n
            invariant
                n == self.breakpoints@.len(),
                i <= n,
                forall|j: int| 0 <= j < i ==> self.breakpoints@[j] != addr,
            decreases n - i,
        {
            if self.breakpoints[i] == addr {
                return true;
            }
            i = i + 1;
        }
        false
    }

    /// Add a software breakpoint. Adding an address twice leaves one entry
    /// and still reports success.
    pub fn add_sw_breakpoint(&mut self, addr: u64) -> (r: bool)
        requires
            old(self).wf(),
        ensures
            final(self).wf(),
            r,
            final(self).breakpoints@.contains(addr),
            forall|a: u64|
                #[trigger] final(self).breakpoints@.contains(a) == (old(self).breakpoints@.contains(a) || a == addr),
            final(self).state == old(self).state,
            final(self).watchpoints@ == old(self).watchpoints@,
            final(self).event == old(self).event,
            final(self).exception == old(self).exception,
            final(self).exec_state == old(self).exec_state,
            final(self).exec_mode == old(self).exec_mode,
            final(self).event_list == old(self).event_list,
            final(self).debugger == old(self).debugger,
    {
        if !self.has_sw_breakpoint(addr) {
            self.breakpoints.push(addr);
            proof {
                let before = old(self).breakpoints@;
                let after = self.breakpoints@;
                assert(after[before.len() as int] == addr);
                assert forall|a: u64| #[trigger]
                    after.contains(a) == (before.contains(a) || a == addr) by {
                    if after.contains(a) {
                        let j = choose|j: int| 0 <= j < after.len() && after[j] == a;
                        if j < before.len() {
                            assert(before[j] == a);
                        }
                    }
                    if before.contains(a) {
                        let j = choose|j: int| 0 <= j < before.len() && before[j] == a;
                        assert(after[j] == a);
                    }
                }
                assert(after.no_duplicates()) by {
                    assert forall|p: int, q: int|
                        0 <= p < after.len() && 0 <= q < after.len() && p != q implies after[p]
                        != after[q] by {
                        if p < before.len() && q < before.len() {
                            assert(before[p] != before[q]);
                        } else if p < before.len() {
                            assert(before.contains(before[p]));
                        } else if q < before.len() {
                            assert(before.contains(before[q]));
                        }
                    }
                }
            }
        }
        true
    }

    /// Remove a software breakpoint; removing an absent address reports
    /// that it was not found.
    pub fn remove_sw_breakpoint(&mut self, addr: u64) -> (r: bool)
        requires
            old(self).wf(),
        ensures
            final(self).wf(),
            r == old(self).breakpoints@.contains(addr),
            !final(self).breakpoints@.contains(addr),
            forall|a: u64|
                #[trigger] final(self).breakpoints@.contains(a) == (old(self).breakpoints@.contains(a) && a != addr),
            final(self).state == old(self).state,
            final(self).watchpoints@ == old(self).watchpoints@,
            final(self).event == old(self).event,
            final(self).exception == old(self).exception,
    {
        let n = self.breakpoints.len();
        let mut i: usize = 0;
        while i < n
            invariant
                old(self).wf(),
                *self == *old(self),
                n == self.breakpoints@.len(),
                i <= n,
                forall|j: int| 0 <= j < i ==> self.breakpoints@[j] != addr,
            decreases n - i,
        {
            if self.breakpoints[i] == addr {
                self.breakpoints.remove(i);
                proof {
                    let before = old(self).breakpoints@;
                    let after = self.breakpoints@;
                    assert(after =~= before.remove(i as int));
                    assert forall|a: u64| #[trigger]
                        after.contains(a) == (before.contains(a) && a != addr) by {
                        if after.contains(a) {
                            let j = choose|j: int| 0 <= j < after.len() && after[j] == a;
                            if j < i {
                                assert(before[j] == a);
                            } else {
                                assert(before[j + 1] == a);
                            }
                            assert(a != addr) by {
                                if j < i {
                                    assert(before[j] != addr);
                                } else {
                                    assert(before.no_duplicates());
                                    assert(before[j + 1] != before[i as int]);
                                }
                            }
                        }
                        if before.contains(a) && a != addr {
                            let j = choose|j: int| 0 <= j < before.len() && before[j] == a;
                            assert(j != i);
                            if j < i {
                                assert(after[j] == a);
                            } else {
                                assert(after[j - 1] == a);
                            }
                        }
                    }
                    assert(before.no_duplicates());
                    assert(after.no_duplicates()) by {
                        assert forall|p: int, q: int|
                            0 <= p < after.len() && 0 <= q < after.len() && p != q implies after[p]
                            != after[q] by {
                            let p0 = if p < i { p } else { p + 1 };
                            let q0 = if q < i { q } else { q + 1 };
                            assert(before[p0] != before[q0]);
                        }
                    }
                }
                return true;
            }
            i = i + 1;
        }
        false
    }
}



/// The whole contract of one step of the loop, as a relation between the
/// emulator before and after and the result.
pub open spec fn step_post<D>(
    pre: &Emulator<D>,
    post: &Emulator<D>,
    r: Result<(), Exception>,
) -> bool {
    let pcv = pre.state.npc;
    let bp = pre.debugger && pre.breakpoints@.contains(pcv);
    &&& post.exec_mode == pre.exec_mode
    &&& post.debugger == pre.debugger
    &&& post.decoder == pre.decoder
    &&& post.breakpoints@ == pre.breakpoints@
    &&& post.watchpoints@ == pre.watchpoints@
    &&& post.event_list.spec_cap() == pre.event_list.spec_cap()
    &&& post.regs()[0] == 0
    &&& (r is Ok ==> post.state.pc == pcv)
    &&& (r is Ok ==> (post.state.npc == wadd(post.state.pc, 4) || post.state.npc == wadd(
        post.state.pc,
        2,
    ) || post.state.npc & 0b11 == 0 || post.state.npc == post.state.pc))
    &&& (r is Err ==> post.exec_state == ExecState::End)
    &&& (r is Ok && post.event == Event::Halted ==> post.exec_state == ExecState::End)
    &&& (r is Ok && post.exception is Some ==> post.exec_state == ExecState::End)
    &&& (r is Ok ==> post.event_list@ == (if post.event != Event::Quiet {
        crate::ring::push_over(pre.event_list@, post.event, pre.event_list.spec_cap())
    } else {
        pre.event_list@
    }))
    &&& (bp ==> (r is Ok && post.event == Event::Break && post.state == (State {
        pc: pcv,
        ..pre.state
    }) && post.exception == pre.exception && post.exec_state == (if pre.exception is Some {
        ExecState::End
    } else {
        ExecState::Idle
    })))
    &&& (!bp && pre.state.memory.range_in_ram(pcv, 4) ==> ({
        let w = spec_u32_from_le_bytes(
            pre.state.memory.ram().subrange(
                pre.state.memory.ram_off(pcv),
                pre.state.memory.ram_off(pcv) + 4,
            ),
        );
        &&& (pre.decoder.spec_decode(w) is Err ==> (r == Err::<(), Exception>(
            Exception::IllegalInstruction { instruction: w, addr: pcv },
        ) && post.state == (State { pc: pcv, ..pre.state }) && post.exec_state == ExecState::End
            && post.event == Event::Quiet && post.exception == pre.exception && post.event_list
            == pre.event_list))
        &&& (pre.decoder.spec_decode(w) matches Ok(d) ==> (exists|mid: Emulator<D>|
            #[trigger] op_effect(d.op, &preset_for(pre), &mid, r, w, pcv) && (r is Ok
                ==> step_bookkeeping(&mid, post)) && (r is Err ==> fault_bookkeeping(&mid, post))))
    }))
    &&& (!bp && pre.state.memory.addr_in_ram(pcv) && !pre.state.memory.range_in_ram(pcv, 4) ==> (r
        == Err::<(), Exception>(Exception::InstructionFault { addr: pcv }) && post.state == (State {
        pc: pcv,
        ..pre.state
    }) && post.exec_state == ExecState::End && post.event == Event::Quiet && post.exception
        == pre.exception && post.event_list == pre.event_list))
    &&& (!bp && !pre.state.memory.addr_in_ram(pcv) && !pre.state.memory.covered(pcv) ==> (r
        == Err::<(), Exception>(Exception::InstructionFault { addr: pcv }) && post.state == (State {
        pc: pcv,
        ..pre.state
    }) && post.exec_state == ExecState::End && post.event == Event::Quiet && post.exception
        == pre.exception && post.event_list == pre.event_list))
}

/// One successful step leads from `pre` to `post`.
pub open spec fn step_ok<D>(pre: &Emulator<D>, post: &Emulator<D>) -> bool {
    exists|r: Result<(), Exception>| r is Ok && #[trigger] step_post(pre, post, r)
}

/// The final state is reached from the initial one by exactly `k` steps,
/// each well-formed and satisfying the step contract with success.
pub open spec fn multi_step_ok<D>(pre: &Emulator<D>, post: &Emulator<D>, k: nat) -> bool
    decreases k,
{
    if k == 0 {
        *post == *pre
    } else {
        exists|mid: Emulator<D>|
            mid.wf() && #[trigger] step_ok(pre, &mid) && multi_step_ok(&mid, post, (k - 1) as nat)
    }
}

/// A successful step appended to a chain of successful steps is a chain one
/// longer.
pub proof fn lemma_multi_step_extend<D>(
    a: &Emulator<D>,
    b: &Emulator<D>,
    c: &Emulator<D>,
    k: nat,
    r: Result<(), Exception>,
)
    requires
        multi_step_ok(a, b, k),
        b.wf(),
        c.wf(),
        r is Ok,
        step_post(b, c, r),
    ensures
        multi_step_ok(a, c, k + 1),
    decreases k,
{
    if k == 0 {
        assert(step_post(a, c, r));
        assert(step_ok(a, c));
        assert(multi_step_ok(c, c, 0));
    } else {
        let m = choose|mid: Emulator<D>|
            mid.wf() && #[trigger] step_ok(a, &mid) && multi_step_ok(&mid, b, (k - 1) as nat);
        lemma_multi_step_extend(&m, b, c, (k - 1) as nat, r);
    }
}

/// The state the loop hands the handler: the next program counter is
/// committed, the following one preset to the fall-through address, the
/// loop marked running with a quiet event. Everything else carries over.
pub open spec fn preset_for<D>(pre: &Emulator<D>) -> Emulator<D> {
    Emulator {
        state: (State { pc: pre.state.npc, npc: wadd(pre.state.npc, 4), ..pre.state }),
        exec_state: ExecState::Running,
        event: Event::Quiet,
        ..*pre
    }
}

/// What the loop does after the handler ran and returned success: a halt
/// event or a pending exception ends execution, otherwise the loop goes
/// idle; any event is captured in the ring; nothing else changes.
pub open spec fn step_bookkeeping<D>(mid: &Emulator<D>, post: &Emulator<D>) -> bool {
    &&& post.state == mid.state
    &&& post.event == mid.event
    &&& post.exception == mid.exception
    &&& post.exec_mode == mid.exec_mode
    &&& post.debugger == mid.debugger
    &&& post.decoder == mid.decoder
    &&& post.breakpoints@ == mid.breakpoints@
    &&& post.watchpoints@ == mid.watchpoints@
    &&& post.exec_state == (if mid.event == Event::Halted || mid.exception is Some {
        ExecState::End
    } else {
        ExecState::Idle
    })
    &&& post.event_list@ == (if mid.event != Event::Quiet {
        crate::ring::push_over(mid.event_list@, mid.event, mid.event_list.spec_cap())
    } else {
        mid.event_list@
    })
    &&& post.event_list.spec_cap() == mid.event_list.spec_cap()
}

/// What the loop does when the handler itself fails: execution ends with
/// the handler's final state kept as it stood, and no event is captured.
pub open spec fn fault_bookkeeping<D>(mid: &Emulator<D>, post: &Emulator<D>) -> bool {
    &&& post.state == mid.state
    &&& post.event == mid.event
    &&& post.exception == mid.exception
    &&& post.exec_mode == mid.exec_mode
    &&& post.debugger == mid.debugger
    &&& post.decoder == mid.decoder
    &&& post.breakpoints@ == mid.breakpoints@
    &&& post.watchpoints@ == mid.watchpoints@
    &&& post.exec_state == ExecState::End
    &&& post.event_list == mid.event_list
}

impl<D: MmioDevice> Emulator<D> {
    /// Run the handler for one decoded operation. Whatever the handler,
    /// `pc` stays put, `npc` is either untouched or aimed at an aligned
    /// target, the debugger data and the event ring are untouched, and any
    /// new event is a halt or a watchpoint hit.
    fn dispatch(&mut self, op: OpKind, inst: u32, pc: u64) -> (r: Result<(), Exception>)
        requires
            old(self).wf(),
        ensures
            final(self).wf(),
            final(self).state.pc == old(self).state.pc,
            final(self).state.npc == old(self).state.npc || final(self).state.npc & 0b11 == 0,
            final(self).exec_state == old(self).exec_state,
            final(self).exec_mode == old(self).exec_mode,
            final(self).event_list == old(self).event_list,
            final(self).decoder == old(self).decoder,
            final(self).debugger == old(self).debugger,
            final(self).breakpoints@ == old(self).breakpoints@,
            final(self).watchpoints@ == old(self).watchpoints@,
            final(self).event == old(self).event || final(self).event is Halted || final(self).event is WatchRead || final(self).event is WatchWrite,
            final(self).exception == old(self).exception || final(self).exception is Some,
            op_effect(op, old(self), final(self), r, inst, pc),
    {
        match op {
            OpKind::Lui => self.op_lui(inst, pc),
            OpKind::Auipc => self.op_auipc(inst, pc),
            OpKind::Jal => self.op_jal(inst, pc),
            OpKind::Jalr => self.op_jalr(inst, pc),
            OpKind::Beq => self.op_beq(inst, pc),
            OpKind::Bne => self.op_bne(inst, pc),
            OpKind::Blt => self.op_blt(inst, pc),
            OpKind::Bge => self.op_bge(inst, pc),
            OpKind::Bltu => self.op_bltu(inst, pc),
            OpKind::Bgeu => self.op_bgeu(inst, pc),
            OpKind::Lb => self.op_lb(inst, pc),
            OpKind::Lh => self.op_lh(inst, pc),
            OpKind::Lw => self.op_lw(inst, pc),
            OpKind::Lbu => self.op_lbu(inst, pc),
            OpKind::Lhu => self.op_lhu(inst, pc),
            OpKind::Sb => self.op_sb(inst, pc),
            OpKind::Sh => self.op_sh(inst, pc),
            OpKind::Sw => self.op_sw(inst, pc),
            OpKind::Addi => self.op_addi(inst, pc),
            OpKind::Slti => self.op_slti(inst, pc),
            OpKind::Sltiu => self.op_sltiu(inst, pc),
            OpKind::Xori => self.op_xori(inst, pc),
            OpKind::Ori => self.op_ori(inst, pc),
            OpKind::Andi => self.op_andi(inst, pc),
            OpKind::Slli => self.op_slli(inst, pc),
            OpKind::Srli => self.op_srli(inst, pc),
            OpKind::Srai => self.op_srai(inst, pc),
            OpKind::Add => self.op_add(inst, pc),
            OpKind::Sub => self.op_sub(inst, pc),
            OpKind::Sll => self.op_sll(inst, pc),
            OpKind::Slt => self.op_slt(inst, pc),
            OpKind::Sltu => self.op_sltu(inst, pc),
            OpKind::Xor => self.op_xor(inst, pc),
            OpKind::Srl => self.op_srl(inst, pc),
            OpKind::Sra => self.op_sra(inst, pc),
            OpKind::Or => self.op_or(inst, pc),
            OpKind::And => self.op_and(inst, pc),
            OpKind::Fence => self.op_fence(inst, pc),
            OpKind::Ecall => self.op_ecall(inst, pc),
            OpKind::Ebreak => self.op_ebreak(inst, pc),
            OpKind::Addiw => self.op_addiw(inst, pc),
            OpKind::Slliw => self.op_slliw(inst, pc),
            OpKind::Srliw => self.op_srliw(inst, pc),
            OpKind::Sraiw => self.op_sraiw(inst, pc),
            OpKind::Addw => self.op_addw(inst, pc),
            OpKind::Subw => self.op_subw(inst, pc),
            OpKind::Sllw => self.op_sllw(inst, pc),
            OpKind::Srlw => self.op_srlw(inst, pc),
            OpKind::Sraw => self.op_sraw(inst, pc),
            OpKind::Ld => self.op_ld(inst, pc),
            OpKind::Lwu => self.op_lwu(inst, pc),
            OpKind::Sd => self.op_sd(inst, pc),
            OpKind::Mul => self.op_mul(inst, pc),
            OpKind::Mulh => self.op_mulh(inst, pc),
            OpKind::Mulhsu => self.op_mulhsu(inst, pc),
            OpKind::Mulhu => self.op_mulhu(inst, pc),
            OpKind::Div => self.op_div(inst, pc),
            OpKind::Divu => self.op_divu(inst, pc),
            OpKind::Rem => self.op_rem(inst, pc),
            OpKind::Remu => self.op_remu(inst, pc),
            OpKind::Mulw => self.op_mulw(inst, pc),
            OpKind::Divw => self.op_divw(inst, pc),
            OpKind::Divuw => self.op_divuw(inst, pc),
            OpKind::Remw => self.op_remw(inst, pc),
            OpKind::Remuw => self.op_remuw(inst, pc),
        }
    }

    /// One step of the loop: commit `npc`, stop on an armed breakpoint when
    /// a debugger is attached, otherwise fetch, decode, preset `npc` to the
    /// next sequential instruction and run the handler; then capture any
    /// event in the ring and halt on a halt event or a pending exception.
    /// The whole outcome is `step_post`: when the fetch range lies in RAM,
    /// the step performs exactly the fetched word's handler effect, or
    /// reports exactly the illegal-instruction or fetch fault.
    pub fn step(&mut self) -> (r: Result<(), Exception>)
        requires
            old(self).wf(),
        ensures
            final(self).wf(),
            step_post(old(self), final(self), r),
    {
        self.exec_state = ExecState::Running;
        self.event = Event::Quiet;
        self.state.sync_pc();
        let pc = self.state.get_pc();
        if self.debugger && self.has_sw_breakpoint(pc) {
            self.event = Event::Break;
        } else {
            let instruction = match self.state.fetch_instruction(pc) {
                Ok(w) => w,
                Err(_) => {
                    self.exec_state = ExecState::End;
                    return Err(Exception::InstructionFault { addr: pc });
                },
            };
            let desc = match self.decoder.fast_path(instruction) {
                Ok(d) => d,
                Err(_) => {
                    self.exec_state = ExecState::End;
                    return Err(Exception::IllegalInstruction { instruction, addr: pc });
                },
            };
            if is_compressed(instruction) {
                proof {
                    // a compressed word cannot decode: the compressed set is
                    // empty, so the decoder already returned an error above
                    assert(crate::decode::first_match(self.decoder.compressed(), instruction)
                        is None);
                    assert(false);
                }
                self.state.set_npc(pc.wrapping_add(2));
            } else {
                self.state.set_npc(pc.wrapping_add(4));
            }
            proof {
                if old(self).state.memory.range_in_ram(old(self).state.npc, 4) {
                    assert(*self == preset_for(old(self)));
                }
            }
            match self.dispatch(desc.op, instruction, pc) {
                Ok(_) => {
                    proof {
                        let mid = *self;
                        if old(self).state.memory.range_in_ram(old(self).state.npc, 4) {
                            assert(op_effect(
                                desc.op,
                                &preset_for(old(self)),
                                &mid,
                                Ok::<(), Exception>(()),
                                instruction,
                                old(self).state.npc,
                            ));
                        }
                    }
                },
                Err(e) => {
                    proof {
                        let mid = *self;
                        if old(self).state.memory.range_in_ram(old(self).state.npc, 4) {
                            assert(op_effect(
                                desc.op,
                                &preset_for(old(self)),
                                &mid,
                                Err::<(), Exception>(e),
                                instruction,
                                old(self).state.npc,
                            ));
                        }
                    }
                    self.exec_state = ExecState::End;
                    return Err(e);
                },
            }
        }
        if self.event == Event::Halted {
            self.exec_state = ExecState::End;
        }
        if self.event != Event::Quiet {
            self.event_list.push_overwrite(self.event);
        }
        if self.exception.is_some() {
            self.exec_state = ExecState::End;
        }
        if self.exec_state != ExecState::End {
            self.exec_state = ExecState::Idle;
        }
        Ok(())
    }

    /// Run up to `n` steps, stopping early when execution has ended (a halt
    /// event, a pending exception) or a step fails. On success the final
    /// state is reached from the initial one by a chain of steps, each
    /// satisfying the step contract; on failure, by such a chain followed
    /// by one step that failed with exactly the returned exception.
    pub fn steps(&mut self, n: usize) -> (r: Result<(), Exception>)
        requires
            old(self).wf(),
        ensures
            final(self).wf(),
            final(self).exec_mode == old(self).exec_mode,
            final(self).debugger == old(self).debugger,
            final(self).breakpoints@ == old(self).breakpoints@,
            final(self).watchpoints@ == old(self).watchpoints@,
            r is Err ==> final(self).exec_state == ExecState::End,
            r is Ok ==> exists|k: nat|
                k <= n && #[trigger] multi_step_ok(old(self), final(self), k) && (k < n ==> final(self).exec_state == ExecState::End),
            r is Err ==> exists|k: nat, mid: Emulator<D>|
                k < n && #[trigger] multi_step_ok(old(self), &mid, k) && mid.wf() && step_post(
                    &mid,
                    final(self),
                    r,
                ),
    {
        let ghost mut done: nat = 0;
        let mut i: usize = 0;
        while i < n
            invariant
                old(self).wf(),
                self.wf(),
                self.exec_mode == old(self).exec_mode,
                self.debugger == old(self).debugger,
                self.breakpoints@ == old(self).breakpoints@,
                self.watchpoints@ == old(self).watchpoints@,
                i <= n,
                done == i,
                multi_step_ok(old(self), self, done),
            decreases n - i,
        {
            let ghost prev = *self;
            let r = self.step();
            match r {
                Ok(_) => {
                    proof {
                        lemma_multi_step_extend(old(self), &prev, self, done, r);
                        done = done + 1;
                    }
                },
                Err(e) => {
                    return Err(e);
                },
            }
            if self.exec_state == ExecState::End {
                return Ok(());
            }
            i = i + 1;
        }
        Ok(())
    }
}

impl<D: MmioDevice> Emulator<D> {
    /// Attach the debugger: breakpoints now stop execution, and the run
    /// mode becomes continue-until-stopped.
    pub fn enable_debug(&mut self)
        requires
            old(self).wf(),
        ensures
            final(self).wf(),
            final(self).debugger,
            final(self).exec_mode == ExecMode::Continue,
            final(self).state == old(self).state,
            final(self).event == old(self).event,
            final(self).exception == old(self).exception,
            final(self).exec_state == old(self).exec_state,
            final(self).event_list == old(self).event_list,
            final(self).breakpoints@ == old(self).breakpoints@,
            final(self).watchpoints@ == old(self).watchpoints@,
            final(self).decoder == old(self).decoder,
    {
        self.debugger = true;
        self.exec_mode = ExecMode::Continue;
    }

    /// Arm a hardware watchpoint over every address in `[addr, addr + len)`.
    pub fn add_hw_watchpoint(&mut self, addr: u64, len: u64) -> (r: bool)
        requires
            old(self).wf(),
            addr + len <= u64::MAX,
        ensures
            final(self).wf(),
            r,
            forall|a: u64|
                #[trigger] final(self).watchpoints@.contains(a) == (old(self).watchpoints@.contains(a) || (addr <= a < addr + len)),
            final(self).state == old(self).state,
            final(self).breakpoints@ == old(self).breakpoints@,
            final(self).event == old(self).event,
            final(self).exception == old(self).exception,
    {
        let mut k: u64 = 0;
        while k < len
            invariant
                old(self).wf(),
                self.wf(),
                addr + len <= u64::MAX,
                k <= len,
                self.state == old(self).state,
                self.breakpoints@ == old(self).breakpoints@,
                self.event == old(self).event,
                self.exception == old(self).exception,
                self.exec_state == old(self).exec_state,
                self.exec_mode == old(self).exec_mode,
                self.event_list == old(self).event_list,
                self.decoder == old(self).decoder,
                self.debugger == old(self).debugger,
                forall|a: u64|
                    #[trigger] self.watchpoints@.contains(a) == (old(self).watchpoints@.contains(a) || (addr <= a < addr + k)),
            decreases len - k,
        {
            let probe = addr + k;
            let ghost entry_w = self.watchpoints@;
            if !self.contains_watchpoint(probe) {
                self.watchpoints.push(probe);
                proof {
                    let after = self.watchpoints@;
                    assert(after == entry_w.push(probe));
                    assert(after[entry_w.len() as int] == probe);
                    assert forall|a: u64| #[trigger]
                        after.contains(a) == (entry_w.contains(a) || a == probe) by {
                        if after.contains(a) {
                            let j = choose|j: int| 0 <= j < after.len() && after[j] == a;
                            if j < entry_w.len() {
                                assert(entry_w[j] == a);
                            }
                        }
                        if entry_w.contains(a) {
                            let j = choose|j: int| 0 <= j < entry_w.len() && entry_w[j] == a;
                            assert(after[j] == a);
                        }
                    }
                    assert(after.no_duplicates()) by {
                        assert forall|p: int, q: int|
                            0 <= p < after.len() && 0 <= q < after.len() && p != q implies after[p]
                            != after[q] by {
                            if p < entry_w.len() && q < entry_w.len() {
                                assert(entry_w[p] != entry_w[q]);
                            } else if p < entry_w.len() {
                                assert(entry_w.contains(entry_w[p]));
                            } else if q < entry_w.len() {
                                assert(entry_w.contains(entry_w[q]));
                            }
                        }
                    }
                }
            }
            k = k + 1;
        }
        true
    }

    /// Disarm the watchpoints in `[addr, addr + len)` one address at a
    /// time; the first address that was not armed stops the walk and
    /// reports failure. No address is ever added.
    pub fn remove_hw_watchpoint(&mut self, addr: u64, len: u64) -> (r: bool)
        requires
            old(self).wf(),
            addr + len <= u64::MAX,
        ensures
            final(self).wf(),
            final(self).state == old(self).state,
            final(self).breakpoints@ == old(self).breakpoints@,
            final(self).event == old(self).event,
            final(self).exception == old(self).exception,
            forall|a: u64|
                #[trigger] final(self).watchpoints@.contains(a) ==> old(self).watchpoints@.contains(a),
            r ==> forall|a: u64|
                #[trigger] final(self).watchpoints@.contains(a) == (old(self).watchpoints@.contains(a) && !(addr <= a < addr + len)),
            !r ==> exists|m: u64|
                addr <= m < addr + len && !old(self).watchpoints@.contains(m),
    {
        let mut k: u64 = 0;
        while k < len
            invariant
                old(self).wf(),
                self.wf(),
                addr + len <= u64::MAX,
                k <= len,
                self.state == old(self).state,
                self.breakpoints@ == old(self).breakpoints@,
                self.event == old(self).event,
                self.exception == old(self).exception,
                self.exec_state == old(self).exec_state,
                self.exec_mode == old(self).exec_mode,
                self.event_list == old(self).event_list,
                self.decoder == old(self).decoder,
                self.debugger == old(self).debugger,
                forall|j: u64| j < k ==> #[trigger] old(self).watchpoints@.contains((addr + j) as u64),
                forall|a: u64|
                    #[trigger] self.watchpoints@.contains(a) == (old(self).watchpoints@.contains(a) && !(addr <= a < addr + k)),
            decreases len - k,
        {
            let probe = addr + k;
            if !self.remove_watchpoint_addr(probe) {
                return false;
            }
            k = k + 1;
        }
        true
    }

    /// Disarm one watched address; report whether it was armed.
    fn remove_watchpoint_addr(&mut self, addr: u64) -> (r: bool)
        requires
            old(self).wf(),
        ensures
            final(self).wf(),
            r == old(self).watchpoints@.contains(addr),
            forall|a: u64|
                #[trigger] final(self).watchpoints@.contains(a) == (old(self).watchpoints@.contains(a) && a != addr),
            final(self).state == old(self).state,
            final(self).breakpoints@ == old(self).breakpoints@,
            final(self).event == old(self).event,
            final(self).exception == old(self).exception,
            final(self).exec_state == old(self).exec_state,
            final(self).exec_mode == old(self).exec_mode,
            final(self).event_list == old(self).event_list,
            final(self).decoder == old(self).decoder,
            final(self).debugger == old(self).debugger,
    {
        let n = self.watchpoints.len();
        let mut i: usize = 0;
        while i < n
            invariant
                old(self).wf(),
                *self == *old(self),
                n == self.watchpoints@.len(),
                i <= n,
                forall|j: int| 0 <= j < i ==> self.watchpoints@[j] != addr,
            decreases n - i,
        {
            if self.watchpoints[i] == addr {
                self.watchpoints.remove(i);
                proof {
                    let before = old(self).watchpoints@;
                    let after = self.watchpoints@;
                    assert(after =~= before.remove(i as int));
                    assert forall|a: u64| #[trigger]
                        after.contains(a) == (before.contains(a) && a != addr) by {
                        if after.contains(a) {
                            let j = choose|j: int| 0 <= j < after.len() && after[j] == a;
                            if j < i {
                                assert(before[j] == a);
                            } else {
                                assert(before[j + 1] == a);
                            }
                            assert(a != addr) by {
                                if j < i {
                                    assert(before[j] != addr);
                                } else {
                                    assert(before.no_duplicates());
                                    assert(before[j + 1] != before[i as int]);
                                }
                            }
                        }
                        if before.contains(a) && a != addr {
                            let j = choose|j: int| 0 <= j < before.len() && before[j] == a;
                            assert(j != i);
                            if j < i {
                                assert(after[j] == a);
                            } else {
                                assert(after[j - 1] == a);
                            }
                        }
                    }
                    assert(after.no_duplicates()) by {
                        assert forall|p: int, q: int|
                            0 <= p < after.len() && 0 <= q < after.len() && p != q implies after[p]
                            != after[q] by {
                            let p0 = if p < i { p } else { p + 1 };
                            let q0 = if q < i { q } else { q + 1 };
                            assert(before[p0] != before[q0]);
                        }
                    }
                }
                return true;
            }
            i = i + 1;
        }
        false
    }

    /// Read memory through the bus.
    pub fn read_memory(&mut self, addr: u64, size: usize) -> (r: Result<Vec<u8>, StateError>)
        requires
            old(self).wf(),
        ensures
            final(self).wf(),
            final(self).regs() == old(self).regs(),
            final(self).state.pc == old(self).state.pc,
            final(self).state.npc == old(self).state.npc,
            final(self).state.memory.ram() == old(self).state.memory.ram(),
            Emulator::<D>::harness_eq(old(self), final(self), true, true),
            old(self).state.memory.addr_in_ram(addr) && old(self).state.memory.range_in_ram(
                addr,
                size as nat,
            ) ==> (r matches Ok(v) && v@ == old(self).state.memory.ram().subrange(
                old(self).state.memory.ram_off(addr),
                old(self).state.memory.ram_off(addr) + size,
            )),
    {
        self.state.read_memory(addr, size)
    }

    /// Write memory through the bus.
    pub fn write_memory(&mut self, addr: u64, data: &[u8]) -> (r: Result<(), StateError>)
        requires
            old(self).wf(),
        ensures
            final(self).wf(),
            final(self).regs() == old(self).regs(),
            final(self).state.pc == old(self).state.pc,
            final(self).state.npc == old(self).state.npc,
            Emulator::<D>::harness_eq(old(self), final(self), true, true),
            old(self).state.memory.addr_in_ram(addr) && old(self).state.memory.range_in_ram(
                addr,
                data@.len(),
            ) ==> (r matches Ok(_) && final(self).state.memory.ram() == crate::mem::spec_store(
                old(self).state.memory.ram(),
                old(self).state.memory.ram_off(addr),
                data@,
            )),
    {
        self.state.write_memory(addr, data)
    }

    /// Read a register; register 0 reads 0.
    pub fn get_reg(&self, reg: u64) -> (r: Result<u64, StateError>)
        requires
            self.wf(),
        ensures
            reg < 32 ==> r == Ok::<u64, StateError>(self.regs()[reg as int]),
            reg == 0 ==> r == Ok::<u64, StateError>(0u64),
            reg >= 32 ==> r is Err,
    {
        self.state.get_reg(reg)
    }

    /// Write a register; a write to register 0 is dropped.
    pub fn set_reg(&mut self, reg: u64, value: u64) -> (r: Result<(), StateError>)
        requires
            old(self).wf(),
        ensures
            final(self).wf(),
            Emulator::<D>::harness_eq(old(self), final(self), true, true),
            final(self).state.pc == old(self).state.pc,
            final(self).state.npc == old(self).state.npc,
            final(self).state.csrs@ == old(self).state.csrs@,
            final(self).state.memory == old(self).state.memory,
            reg < 32 ==> (r is Ok && final(self).regs() == crate::state::regs_with(
                &old(self).state,
                reg as int,
                value,
            )),
            reg >= 32 ==> (r is Err && final(self).regs() == old(self).regs()),
    {
        self.state.set_reg(reg, value)
    }

    /// The committed program counter.
    pub fn get_pc(&self) -> (r: u64)
        ensures
            r == self.state.pc,
    {
        self.state.get_pc()
    }

    /// Aim the next program counter.
    pub fn set_npc(&mut self, pc: u64)
        requires
            old(self).wf(),
        ensures
            final(self).wf(),
            final(self).state.npc == pc,
            final(self).state.pc == old(self).state.pc,
            final(self).regs() == old(self).regs(),
            final(self).state.csrs@ == old(self).state.csrs@,
            final(self).state.memory == old(self).state.memory,
            Emulator::<D>::harness_eq(old(self), final(self), true, true),
    {
        self.state.set_npc(pc)
    }

    /// Commit the next program counter.
    pub fn sync_pc(&mut self)
        requires
            old(self).wf(),
        ensures
            final(self).wf(),
            final(self).state.pc == old(self).state.npc,
            final(self).state.npc == old(self).state.npc,
            final(self).regs() == old(self).regs(),
            final(self).state.csrs@ == old(self).state.csrs@,
            final(self).state.memory == old(self).state.memory,
            Emulator::<D>::harness_eq(old(self), final(self), true, true),
    {
        self.state.sync_pc()
    }

    /// The whole register file.
    pub fn get_regs(&self) -> (r: &Vec<u64>)
        ensures
            r@ == self.regs(),
    {
        self.state.get_regs()
    }

    /// A borrow of the processor state.
    pub fn get_state_ref(&self) -> (r: &State<D>)
        ensures
            r == &self.state,
    {
        &self.state
    }

    /// Where the loop stands.
    pub fn get_exec_state(&self) -> (r: ExecState)
        ensures
            r == self.exec_state,
    {
        self.exec_state
    }

    /// How a debugger asked execution to proceed.
    pub fn get_exec_mode(&self) -> (r: ExecMode)
        ensures
            r == self.exec_mode,
    {
        self.exec_mode
    }

    /// Set the execution mode on the debugger's behalf.
    pub fn set_exec_mode(&mut self, mode: ExecMode)
        requires
            old(self).wf(),
        ensures
            final(self).wf(),
            final(self).exec_mode == mode,
            final(self).state == old(self).state,
            final(self).event == old(self).event,
            final(self).exception == old(self).exception,
            final(self).exec_state == old(self).exec_state,
            final(self).event_list == old(self).event_list,
            final(self).breakpoints@ == old(self).breakpoints@,
            final(self).watchpoints@ == old(self).watchpoints@,
            final(self).debugger == old(self).debugger,
            final(self).decoder == old(self).decoder,
    {
        self.exec_mode = mode;
    }

    /// Drain the event trail, oldest first.
    pub fn get_events(&mut self) -> (r: Vec<Event>)
        requires
            old(self).wf(),
        ensures
            final(self).wf(),
            r@ == old(self).event_list@,
            final(self).event_list@ == Seq::<Event>::empty(),
            final(self).state == old(self).state,
            final(self).event == old(self).event,
            final(self).exception == old(self).exception,
            final(self).breakpoints@ == old(self).breakpoints@,
            final(self).watchpoints@ == old(self).watchpoints@,
    {
        let mut events: Vec<Event> = Vec::new();
        loop
            invariant
                self.wf(),
                events@ + self.event_list@ == old(self).event_list@,
                self.state == old(self).state,
                self.event == old(self).event,
                self.exception == old(self).exception,
                self.exec_state == old(self).exec_state,
                self.exec_mode == old(self).exec_mode,
                self.debugger == old(self).debugger,
                self.decoder == old(self).decoder,
                self.breakpoints@ == old(self).breakpoints@,
                self.watchpoints@ == old(self).watchpoints@,
                self.event_list.spec_cap() == old(self).event_list.spec_cap(),
            decreases self.event_list@.len(),
        {
            match self.event_list.pop() {
                Ok(event) => {
                    events.push(event);
                    proof {
                        assert(events@ + self.event_list@ =~= old(self).event_list@);
                    }
                },
                Err(_) => {
                    proof {
                        assert(events@ =~= events@ + self.event_list@);
                    }
                    return events;
                },
            }
        }
    }

    /// The event of the current step.
    pub fn get_cur_event(&self) -> (r: Event)
        ensures
            r == self.event,
    {
        self.event
    }

    /// The pending exception, if any.
    pub fn get_exception(&self) -> (r: Option<Exception>)
        ensures
            r == self.exception,
    {
        self.exception
    }
}

impl Emulator<Device> {
    /// Build the emulator from the typed configuration: a zeroed RAM bus
    /// with every enabled device mapped and the regions sorted, fresh state
    /// at the boot address, the decoder for the enabled extensions, and an
    /// empty event ring of the configured capacity.
    pub fn new(config: &EmuConfig, device_file: &DeviceFile) -> (r: Result<
        Emulator<Device>,
        DeviceError,
    >)
        requires
            !config.inst_set.c_ext,
            config.debug.event_list_size >= 1,
            device_file.memory.memory_size * 0x100000 <= usize::MAX,
            device_file.memory.memory_base + device_file.memory.memory_size * 0x100000
                <= u64::MAX,
        ensures
            !crate::mem::spec_is_pow2((device_file.memory.memory_size * 0x100000) as nat) ==> r
                is Err,
            crate::mem::spec_is_pow2((device_file.memory.memory_size * 0x100000) as nat)
                && crate::devmgr::spec_devices_buildable(device_file) ==> r is Ok,
            r matches Ok(emu) ==> emu.state.memory.regions().len()
                == crate::devmgr::spec_enabled_configs(device_file.devices@).len(),
            r matches Ok(emu) ==> crate::devmgr::regions_reflect_devices(
                &emu.state.memory,
                device_file,
            ),
            r matches Ok(emu) ==> (emu.wf() && emu.state.pc == config.memory.boot_pc
                && emu.state.npc == config.memory.boot_pc && emu.regs() == Seq::new(
                32,
                |i: int| 0u64,
            ) && emu.state.csrs@ == Map::<u16, u64>::empty() && emu.exec_state == ExecState::Idle
                && emu.exec_mode == ExecMode::Free && !emu.debugger && emu.event == Event::Quiet
                && emu.exception is None && emu.event_list@ == Seq::<Event>::empty()
                && emu.event_list.spec_cap() == config.debug.event_list_size && emu.breakpoints@
                == Seq::<u64>::empty() && emu.watchpoints@ == Seq::<u64>::empty()
                && emu.state.memory.base_addr() == device_file.memory.memory_base
                && emu.state.memory.ram_size() == device_file.memory.memory_size * 0x100000
                && emu.state.memory.ram() == Seq::new(
                (device_file.memory.memory_size * 0x100000) as nat,
                |i: int| 0u8,
            )),
    {
        let mut memory: Memory<Device> = match Memory::new(device_file) {
            Ok(m) => m,
            Err(e) => {
                return Err(DeviceError::Mapping(e));
            },
        };
        proof {
            if crate::devmgr::spec_devices_buildable(device_file) {
                assert(crate::devmgr::devices_mappable(device_file.devices@, &memory));
            }
        }
        match DeviceManager::initialize_devices(&mut memory, device_file.devices.as_slice()) {
            Ok(_) => (),
            Err(e) => {
                return Err(e);
            },
        }
        let ghost pre_sort = memory;
        memory.sort_mmio_regions();
        let state = State::new(config, memory);
        let decoder = InstDecoder::new(config);
        let emu = Emulator {
            state,
            exec_state: ExecState::Idle,
            exec_mode: ExecMode::Free,
            event: Event::Quiet,
            exception: None,
            event_list: RingBuffer::new(config.debug.event_list_size),
            decoder,
            debugger: false,
            breakpoints: Vec::new(),
            watchpoints: Vec::new(),
        };
        proof {
            let es = crate::devmgr::spec_enabled_configs(device_file.devices@);
            let before = pre_sort.regions();
            let after = emu.state.memory.regions();
            before.to_multiset_ensures();
            after.to_multiset_ensures();
            assert forall|j: int| 0 <= j < emu.state.memory.regions().len() implies crate::devmgr::region_listed(
                (#[trigger] emu.state.memory.regions()[j]).base,
                emu.state.memory.regions()[j].size,
                emu.state.memory.regions()[j].name@,
                es,
            ) by {
                assert(after.contains(after[j]));
                assert(after.to_multiset().count(after[j]) > 0);
                assert(before.contains(after[j]));
                let p = choose|p: int| 0 <= p < before.len() && before[p] == after[j];
                assert((#[trigger] before[0 + p]).base == es[p].base && before[0 + p].size
                    == es[p].size && before[0 + p].name@ == es[p].name@);
                assert(0 <= p < es.len() && after[j].base == (#[trigger] es[p]).base && after[j].size
                    == es[p].size && after[j].name@ == es[p].name@);
            }
        }
        Ok(emu)
    }
}


/// Adding a software breakpoint twice leaves exactly the set that one add
/// produces: the second add changes nothing.
pub proof fn lemma_sw_breakpoint_add_idempotent(
    pre: Seq<u64>,
    mid: Seq<u64>,
    post: Seq<u64>,
    addr: u64,
)
    requires
        forall|a: u64| #[trigger] mid.contains(a) == (pre.contains(a) || a == addr),
        forall|a: u64| #[trigger] post.contains(a) == (mid.contains(a) || a == addr),
    ensures
        forall|a: u64| #[trigger] post.contains(a) == mid.contains(a),
{
}


/// What one step's outcome means to an attached debugger.
#[derive(Debug, Clone, Copy, PartialEq, Eq, Structural)]
pub enum StopKind {
    /// Keep stepping: nothing to report.
    KeepGoing,
    /// The program halted cleanly.
    Exited,
    /// A software breakpoint stopped the step before the instruction ran.
    BreakHit,
    /// A watched address was about to be written.
    WatchWriteHit(u64),
    /// A watched address was about to be read.
    WatchReadHit(u64),
    /// A pending architectural exception ended the run.
    Faulted,
}

/// How many instructions one resume request may execute before the run
/// reports back: exactly one for a single step, unbounded for continue, the
/// range width for a range step (with one step as the fallback when the
/// program counter already left the range), and one outside debugging.
pub fn step_budget(mode: ExecMode, pc: u64) -> (r: Option<usize>)
    ensures
        mode == ExecMode::Step ==> r == Some(1usize),
        mode == ExecMode::Continue ==> r is None,
        mode == ExecMode::Free ==> r == Some(1usize),
        forall|start: u64, end: u64|
            mode == ExecMode::RangeStep(start, end) ==> r == Some(
                if pc >= end {
                    0usize
                } else if end <= start {
                    1usize
                } else if end - start <= usize::MAX {
                    (end - start) as usize
                } else {
                    usize::MAX
                },
            ),
{
    match mode {
        ExecMode::Step => Some(1),
        ExecMode::Continue => None,
        ExecMode::Free => Some(1),
        ExecMode::RangeStep(start, end) => {
            if pc >= end {
                Some(0)
            } else if end <= start {
                Some(1)
            } else if end - start <= usize::MAX as u64 {
                Some((end - start) as usize)
            } else {
                Some(usize::MAX)
            }
        },
    }
}

/// Map one step's event and pending exception to the debugger's stop
/// reason: the halt event ends the run, a breakpoint or watchpoint stops
/// it, a pending exception faults it, and a quiet step keeps going.
pub fn stop_kind_for(event: Event, exception: Option<Exception>) -> (r: StopKind)
    ensures
        event == Event::Halted ==> r == StopKind::Exited,
        event == Event::Break ==> r == StopKind::BreakHit,
        forall|a: u64| event == Event::WatchWrite(a) ==> r == StopKind::WatchWriteHit(a),
        forall|a: u64| event == Event::WatchRead(a) ==> r == StopKind::WatchReadHit(a),
        event == Event::Quiet && exception is Some ==> r == StopKind::Faulted,
        event == Event::Quiet && exception is None ==> r == StopKind::KeepGoing,
{
    match event {
        Event::Halted => StopKind::Exited,
        Event::Break => StopKind::BreakHit,
        Event::WatchWrite(a) => StopKind::WatchWriteHit(a),
        Event::WatchRead(a) => StopKind::WatchReadHit(a),
        Event::Quiet => {
            if exception.is_some() {
                StopKind::Faulted
            } else {
                StopKind::KeepGoing
            }
        },
    }
}

} // verus!
