//! The execute pipeline end to end: decoding, single steps over small
//! programs, branch misalignment, division corner cases, device stores,
//! breakpoints, watchpoints, events, and the system-call decisions.

use rv64_emu::handle_syscall;
use rv64_emu::BreakpointManager;
use rv64_emu::DebugConfig;
use rv64_emu::Device;
use rv64_emu::DeviceConfig;
use rv64_emu::DeviceFile;
use rv64_emu::DeviceFileMemory;
use rv64_emu::Difftest;
use rv64_emu::EmuConfig;
use rv64_emu::Emulator;
use rv64_emu::Event;
use rv64_emu::Exception;
use rv64_emu::InstSetConfig;
use rv64_emu::Memory;
use rv64_emu::MemoryConfig;
use rv64_emu::OthersConfig;
use rv64_emu::RV64I;
use rv64_emu::SyscallContext;
use rv64_emu::SyscallEffect;
use rv64_emu::State;
use rv64_emu::StateError;
use rv64_emu::step_budget;
use rv64_emu::stop_kind_for;
use rv64_emu::ExecMode;
use rv64_emu::StopKind;
use rv64_emu::SyscallError;

fn test_config(m_ext: bool) -> EmuConfig {
    EmuConfig {
        memory: MemoryConfig { boot_pc: 0x8000_0000 },
        inst_set: InstSetConfig { m_ext, a_ext: false, c_ext: false },
        debug: DebugConfig { event_list_size: 64, instruction_tracer_list_size: 64 },
        others: OthersConfig { decoder_cache_size: 1024 },
    }
}

fn test_device_file(devices: Vec<DeviceConfig>) -> DeviceFile {
    DeviceFile {
        memory: DeviceFileMemory { memory_base: 0x8000_0000, memory_size: 128 },
        devices,
    }
}

fn build_emu(m_ext: bool) -> Emulator<Device> {
    Emulator::new(&test_config(m_ext), &test_device_file(Vec::new())).unwrap()
}

fn load_program(emu: &mut Emulator<Device>, base: u64, words: &[u32]) {
    let mut bytes: Vec<u8> = Vec::new();
    for w in words {
        bytes.extend_from_slice(&w.to_le_bytes());
    }
    emu.write_memory(base, &bytes).unwrap();
}

#[test]
fn test_lui_addiw_sequence() {
    let mut emu = build_emu(false);
    load_program(&mut emu, 0x8000_0000, &[0x123450B7, 0x6780809B]);
    emu.step().unwrap();
    emu.step().unwrap();
    assert_eq!(emu.get_reg(1).unwrap(), 0x0000_0000_1234_5678);
    assert_eq!(emu.get_state_ref().npc, 0x8000_0008);
}

#[test]
fn test_branch_taken_misaligned() {
    let mut emu = build_emu(false);
    load_program(&mut emu, 0x8000_0000, &[0x00000363]);
    emu.step().unwrap();
    assert_eq!(
        emu.get_exception(),
        Some(Exception::InstructionAddressMisaligned { addr: 0x8000_0006 })
    );
    assert_eq!(emu.get_pc(), 0x8000_0000);
}

#[test]
fn test_branch_taken_aligned() {
    let mut emu = build_emu(false);
    // beq x0, x0, +8
    load_program(&mut emu, 0x8000_0000, &[0x00000463]);
    emu.step().unwrap();
    assert_eq!(emu.get_exception(), None);
    assert_eq!(emu.get_state_ref().npc, 0x8000_0008);
}

#[test]
fn test_load_store_round_trip() {
    let mut emu = build_emu(false);
    load_program(&mut emu, 0x8000_0000, &[0x0020B023, 0x0000B183]);
    emu.set_reg(1, 0x8000_1000).unwrap();
    emu.set_reg(2, 0xDEAD_BEEF_CAFE_BABE).unwrap();
    emu.step().unwrap();
    emu.step().unwrap();
    assert_eq!(emu.get_reg(3).unwrap(), 0xDEAD_BEEF_CAFE_BABE);
    let bytes = emu.read_memory(0x8000_1000, 2).unwrap();
    assert_eq!(bytes, vec![0xBE, 0xBA]);
}

#[test]
fn test_unsigned_divide_by_zero() {
    let mut emu = build_emu(true);
    load_program(&mut emu, 0x8000_0000, &[0x0262D3B3, 0x0262F433]);
    emu.set_reg(5, 42).unwrap();
    emu.set_reg(6, 0).unwrap();
    emu.step().unwrap();
    emu.step().unwrap();
    assert_eq!(emu.get_reg(7).unwrap(), 0xFFFF_FFFF_FFFF_FFFF);
    assert_eq!(emu.get_reg(8).unwrap(), 42);
}

#[test]
fn test_signed_division_overflow() {
    let mut emu = build_emu(true);
    // div x7, x5, x6 ; rem x8, x5, x6
    load_program(&mut emu, 0x8000_0000, &[0x0262C3B3, 0x0262E433]);
    emu.set_reg(5, i64::MIN as u64).unwrap();
    emu.set_reg(6, (-1i64) as u64).unwrap();
    emu.step().unwrap();
    emu.step().unwrap();
    assert_eq!(emu.get_reg(7).unwrap(), i64::MIN as u64);
    assert_eq!(emu.get_reg(8).unwrap(), 0);
}

#[test]
fn test_uart_write_sets_touch_flag() {
    let devices = vec![DeviceConfig {
        name: "uart0".to_string(),
        device_type: "uart".to_string(),
        base: 0x1000_0000,
        size: 0x100,
        enabled: true,
    }];
    let mut emu = Emulator::new(&test_config(false), &test_device_file(devices)).unwrap();
    load_program(&mut emu, 0x8000_0000, &[0x00110023]);
    emu.set_reg(1, 0x41).unwrap();
    emu.set_reg(2, 0x1000_0000).unwrap();
    emu.step().unwrap();
    assert_eq!(emu.get_exception(), None);
    assert!(emu.state.memory.is_last_mmio());
}

#[test]
fn test_breakpoint_stops_before_execution() {
    let mut emu = build_emu(false);
    // addi x1, x0, 1 ; addi x1, x0, 2
    load_program(&mut emu, 0x8000_0000, &[0x00100093, 0x00200093]);
    emu.enable_debug();
    assert!(emu.add_sw_breakpoint(0x8000_0004));
    emu.step().unwrap();
    assert_eq!(emu.get_cur_event(), Event::Quiet);
    emu.step().unwrap();
    assert_eq!(emu.get_cur_event(), Event::Break);
    assert_eq!(emu.get_pc(), 0x8000_0004);
    assert_eq!(emu.get_reg(1).unwrap(), 1);
    let events = emu.get_events();
    assert_eq!(events, vec![Event::Break]);
}

#[test]
fn test_sw_breakpoint_add_remove() {
    let mut emu = build_emu(false);
    assert!(emu.add_sw_breakpoint(0x8000_0004));
    assert!(emu.add_sw_breakpoint(0x8000_0004));
    assert!(emu.has_sw_breakpoint(0x8000_0004));
    assert!(emu.remove_sw_breakpoint(0x8000_0004));
    assert!(!emu.remove_sw_breakpoint(0x8000_0004));
}

#[test]
fn test_watchpoint_fires_before_store() {
    let mut emu = build_emu(false);
    // sw x1, 0(x2)
    load_program(&mut emu, 0x8000_0000, &[0x00112023]);
    emu.set_reg(1, 0x1234_5678).unwrap();
    emu.set_reg(2, 0x8000_1000).unwrap();
    assert!(emu.add_hw_watchpoint(0x8000_1000, 4));
    emu.step().unwrap();
    assert_eq!(emu.get_cur_event(), Event::WatchWrite(0x8000_1000));
    let bytes = emu.read_memory(0x8000_1000, 4).unwrap();
    assert_eq!(bytes, vec![0, 0, 0, 0]);
    assert!(emu.remove_hw_watchpoint(0x8000_1000, 4));
    assert!(!emu.remove_hw_watchpoint(0x8000_1000, 4));
}

#[test]
fn test_ebreak_halts() {
    let mut emu = build_emu(false);
    load_program(&mut emu, 0x8000_0000, &[0x00100073]);
    emu.steps(10).unwrap();
    assert_eq!(emu.get_cur_event(), Event::Halted);
    assert_eq!(emu.get_exec_state(), rv64_emu::ExecState::End);
}

#[test]
fn test_illegal_instruction_reported() {
    let mut emu = build_emu(false);
    load_program(&mut emu, 0x8000_0000, &[0xFFFF_FFFF]);
    let r = emu.step();
    assert_eq!(
        r,
        Err(Exception::IllegalInstruction { instruction: 0xFFFF_FFFF, addr: 0x8000_0000 })
    );
}

#[test]
fn test_m_extension_gated_by_config() {
    let mut emu = build_emu(false);
    // mul x1, x2, x3 with the M extension disabled
    load_program(&mut emu, 0x8000_0000, &[0x023100B3]);
    let r = emu.step();
    assert_eq!(
        r,
        Err(Exception::IllegalInstruction { instruction: 0x023100B3, addr: 0x8000_0000 })
    );
}

#[test]
fn test_fetch_outside_ram_faults() {
    let mut emu = build_emu(false);
    emu.set_npc(0x4000_0000);
    let r = emu.step();
    assert_eq!(r, Err(Exception::InstructionFault { addr: 0x4000_0000 }));
}

#[test]
fn test_jalr_links_and_masks() {
    let mut emu = build_emu(false);
    // jalr x1, x2, 1  (target low bit masked off)
    load_program(&mut emu, 0x8000_0000, &[0x001100E7]);
    emu.set_reg(2, 0x8000_0100).unwrap();
    emu.step().unwrap();
    assert_eq!(emu.get_reg(1).unwrap(), 0x8000_0004);
    assert_eq!(emu.get_state_ref().npc, 0x8000_0100);
}

#[test]
fn test_x0_stays_zero() {
    let mut emu = build_emu(false);
    // addi x0, x0, 7
    load_program(&mut emu, 0x8000_0000, &[0x00700013]);
    emu.step().unwrap();
    assert_eq!(emu.get_reg(0).unwrap(), 0);
    emu.set_reg(0, 0xFFFF).unwrap();
    assert_eq!(emu.get_reg(0).unwrap(), 0);
}

#[test]
fn test_decoder_is_deterministic() {
    let config = test_config(true);
    let decoder = rv64_emu::InstDecoder::new(&config);
    let a = decoder.slow_path(0x00700013).unwrap();
    let b = decoder.slow_path(0x00700013).unwrap();
    assert_eq!(a.name, b.name);
    assert_eq!(a.identifier, b.identifier);
    assert_eq!(decoder.slow_path(0x00700013).unwrap().name, "addi");
    assert_eq!(decoder.slow_path(0x02000033).unwrap().name, "mul");
    assert_eq!(decoder.slow_path(0x00000033).unwrap().name, "add");
    assert!(decoder.slow_path(0x0000_0001).is_err());
}

#[test]
fn test_breakpoint_manager_semantics() {
    let mut mgr = BreakpointManager::new();
    assert!(mgr.add_breakpoint(0x8000_0000));
    assert!(!mgr.add_breakpoint(0x8000_0000));
    assert_eq!(mgr.get_all_breakpoints().len(), 1);
    assert!(mgr.has_breakpoint(0x8000_0000));
    assert!(mgr.set_breakpoint_enabled(0x8000_0000, false));
    assert!(!mgr.has_breakpoint(0x8000_0000));
    assert!(mgr.remove_breakpoint(0x8000_0000));
    assert!(!mgr.remove_breakpoint(0x8000_0000));
    assert!(!mgr.set_breakpoint_enabled(0x8000_0000, true));
}

#[test]
fn test_syscall_decisions() {
    let device_file = test_device_file(Vec::new());
    let mut memory: Memory<Device> = Memory::new(&device_file).unwrap();
    memory.write(0x8000_2000, b"hi").unwrap();

    let write_call = SyscallContext { number: 64, arg0: 2, arg1: 0x8000_2000, arg2: 2, arg3: 0, arg4: 0 };
    match handle_syscall(&write_call, &mut memory).unwrap() {
        SyscallEffect::Output { fd, data } => {
            assert_eq!(fd, 2);
            assert_eq!(data, b"hi".to_vec());
        },
        _ => panic!("expected an output effect"),
    }

    let exit_call = SyscallContext { number: 93, arg0: 7, arg1: 0, arg2: 0, arg3: 0, arg4: 0 };
    assert!(matches!(handle_syscall(&exit_call, &mut memory).unwrap(), SyscallEffect::Exit(7)));

    let brk_call = SyscallContext { number: 214, arg0: 0x9000, arg1: 0, arg2: 0, arg3: 0, arg4: 0 };
    assert!(matches!(handle_syscall(&brk_call, &mut memory).unwrap(), SyscallEffect::Ret(0x9000)));

    let bad_fd = SyscallContext { number: 64, arg0: 5, arg1: 0, arg2: 0, arg3: 0, arg4: 0 };
    assert!(matches!(handle_syscall(&bad_fd, &mut memory), Err(SyscallError::InvalidArgument(_))));

    let unknown = SyscallContext { number: 1000, arg0: 0, arg1: 0, arg2: 0, arg3: 0, arg4: 0 };
    assert!(matches!(handle_syscall(&unknown, &mut memory), Err(SyscallError::Unimplemented(1000))));
}

#[test]
fn test_difftest_state_snapshot() {
    let mut emu = build_emu(false);
    emu.set_reg(5, 77).unwrap();
    let s1 = emu.self_state();
    assert_eq!(s1.reg.len(), 32);
    assert_eq!(s1.reg[5], 77);
    assert_eq!(s1.pc, 0x8000_0000);
    let s2 = emu.self_state();
    assert!(s1 == s2);
    emu.set_reg(5, 78).unwrap();
    let s3 = emu.self_state();
    assert!(!(s1 == s3));
}

#[test]
fn test_rv64i_field_decode() {
    let raw = RV64I::new(0x0020B023);
    let (opcode, rd, rs1, rs2, funct3) = raw.decode();
    assert_eq!(opcode, 0x23);
    assert_eq!(rd, 0);
    assert_eq!(rs1, 1);
    assert_eq!(rs2, 2);
    assert_eq!(funct3, 3);
}

#[test]
fn test_unknown_device_type_rejected() {
    let devices = vec![DeviceConfig {
        name: "disk0".to_string(),
        device_type: "disk".to_string(),
        base: 0x1000_0000,
        size: 0x100,
        enabled: true,
    }];
    let r = Emulator::new(&test_config(false), &test_device_file(devices));
    assert!(r.is_err());
}

#[test]
fn test_disabled_device_skipped() {
    let devices = vec![DeviceConfig {
        name: "uart0".to_string(),
        device_type: "uart".to_string(),
        base: 0x1000_0000,
        size: 0x100,
        enabled: false,
    }];
    let mut emu = Emulator::new(&test_config(false), &test_device_file(devices)).unwrap();
    // with the device disabled, its address range is unmapped
    let r = emu.read_memory(0x1000_0000, 1);
    assert!(r.is_err());
}

#[test]
fn test_w_ops_sign_extend() {
    let mut emu = build_emu(false);
    // addiw x1, x2, -1  with x2 = 0
    load_program(&mut emu, 0x8000_0000, &[0xFFF1009B]);
    emu.set_reg(2, 0).unwrap();
    emu.step().unwrap();
    assert_eq!(emu.get_reg(1).unwrap(), 0xFFFF_FFFF_FFFF_FFFF);
}

#[test]
fn test_sltu_and_slt() {
    let mut emu = build_emu(false);
    // sltu x3, x1, x2 ; slt x4, x1, x2
    load_program(&mut emu, 0x8000_0000, &[0x0020B1B3, 0x0020A233]);
    emu.set_reg(1, 1).unwrap();
    emu.set_reg(2, (-1i64) as u64).unwrap();
    emu.step().unwrap();
    emu.step().unwrap();
    assert_eq!(emu.get_reg(3).unwrap(), 1);
    assert_eq!(emu.get_reg(4).unwrap(), 0);
}

#[test]
fn test_register_aliases() {
    assert_eq!(rv64_emu::get_register_alias(0), "zero");
    assert_eq!(rv64_emu::get_register_alias(2), "sp");
    assert_eq!(rv64_emu::get_register_alias(8), "s0/fp");
    assert_eq!(rv64_emu::get_register_alias(10), "a0");
    assert_eq!(rv64_emu::get_register_alias(31), "t6");
    assert_eq!(rv64_emu::get_register_alias(99), "unknown");
}

#[test]
fn test_csr_and_register_errors() {
    let memory: Memory<Device> = Memory::new(&test_device_file(Vec::new())).unwrap();
    let mut st = State::new(&test_config(false), memory);
    assert!(matches!(st.get_csr(0x300), Err(StateError::InvalidCsr(0x300))));
    st.set_csr(0x300, 7).unwrap();
    assert_eq!(st.get_csr(0x300).unwrap(), 7);
    assert!(matches!(st.get_reg(32), Err(StateError::InvalidRegister(32))));
    assert!(matches!(st.set_reg(40, 1), Err(StateError::InvalidRegister(40))));
}

#[test]
fn test_debug_run_decisions() {
    assert_eq!(step_budget(ExecMode::Step, 0x8000_0000), Some(1));
    assert_eq!(step_budget(ExecMode::Continue, 0x8000_0000), None);
    assert_eq!(step_budget(ExecMode::RangeStep(0x8000_0000, 0x8000_0010), 0x8000_0000), Some(16));
    assert_eq!(step_budget(ExecMode::RangeStep(0x8000_0000, 0x8000_0010), 0x8000_0010), Some(0));

    assert_eq!(stop_kind_for(Event::Halted, None), StopKind::Exited);
    assert_eq!(stop_kind_for(Event::Break, None), StopKind::BreakHit);
    assert_eq!(stop_kind_for(Event::WatchWrite(0x10), None), StopKind::WatchWriteHit(0x10));
    assert_eq!(stop_kind_for(Event::WatchRead(0x20), None), StopKind::WatchReadHit(0x20));
    assert_eq!(
        stop_kind_for(Event::Quiet, Some(Exception::EnvironmentCall)),
        StopKind::Faulted
    );
    assert_eq!(stop_kind_for(Event::Quiet, None), StopKind::KeepGoing);
}

#[test]
fn test_high_multiplies() {
    let mut emu = build_emu(true);
    // mulh x3, x1, x2 ; mulhu x4, x1, x2
    load_program(&mut emu, 0x8000_0000, &[0x022091B3, 0x0220B233]);
    emu.set_reg(1, (-1i64) as u64).unwrap();
    emu.set_reg(2, 2).unwrap();
    emu.step().unwrap();
    emu.step().unwrap();
    assert_eq!(emu.get_reg(3).unwrap(), 0xFFFF_FFFF_FFFF_FFFF);
    assert_eq!(emu.get_reg(4).unwrap(), 1);
}

#[test]
fn test_event_ring_overflow_keeps_newest() {
    let mut config = test_config(false);
    config.debug.event_list_size = 1;
    let mut emu = Emulator::new(&config, &test_device_file(Vec::new())).unwrap();
    // two breakpointed instructions in a row
    load_program(&mut emu, 0x8000_0000, &[0x00100093, 0x00200093, 0x00100073]);
    emu.enable_debug();
    emu.add_sw_breakpoint(0x8000_0000);
    emu.step().unwrap();
    assert_eq!(emu.get_cur_event(), Event::Break);
    emu.remove_sw_breakpoint(0x8000_0000);
    emu.add_sw_breakpoint(0x8000_0004);
    emu.step().unwrap();
    emu.step().unwrap();
    assert_eq!(emu.get_cur_event(), Event::Break);
    // the ring holds one slot: only the newest break survives
    let events = emu.get_events();
    assert_eq!(events, vec![Event::Break]);
}

#[test]
fn test_device_regions_reflect_config() {
    let devices = vec![
        DeviceConfig {
            name: "uart1".to_string(),
            device_type: "uart".to_string(),
            base: 0x2000_0000,
            size: 0x100,
            enabled: true,
        },
        DeviceConfig {
            name: "skipped".to_string(),
            device_type: "uart".to_string(),
            base: 0x3000_0000,
            size: 0x100,
            enabled: false,
        },
        DeviceConfig {
            name: "uart0".to_string(),
            device_type: "uart".to_string(),
            base: 0x1000_0000,
            size: 0x100,
            enabled: true,
        },
    ];
    let emu = Emulator::new(&test_config(false), &test_device_file(devices)).unwrap();
    let mem = &emu.state.memory;
    assert_eq!(mem.mmio_region_count(), 2);
    assert_eq!(mem.mmio_region_base(0), 0x1000_0000);
    assert_eq!(mem.mmio_region_name(0), "uart0");
    assert_eq!(mem.mmio_region_base(1), 0x2000_0000);
    assert_eq!(mem.mmio_region_name(1), "uart1");
}
