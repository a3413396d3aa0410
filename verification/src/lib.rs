//! An instruction-accurate emulator core for the 64-bit RISC-V base integer
//! ISA with the M extension, built around a verified execute pipeline:
//! bit primitives, a flat RAM plus MMIO bus, an opcode-bucketed instruction
//! decoder, per-instruction handlers, and a fetch-decode-execute loop with
//! debugger hooks.

pub mod bits;
pub mod bkpt;
pub mod config;
pub mod decode;
pub mod device;
pub mod devmgr;
pub mod difftest;
pub mod emu;
pub mod exception;
pub mod execute;
pub mod mem;
pub mod ring;
pub mod rv64i;
pub mod rv64m;
pub mod state;
pub mod syscall;

pub use bits::sign_extend_64;
pub use bits::BitSlice;
pub use ring::RingBuffer;
pub use ring::RingBufferError;
pub use device::DeviceError;
pub use device::MmioDevice;
pub use device::Timer;
pub use device::Uart;
pub use config::DebugConfig;
pub use config::DeviceConfig;
pub use config::DeviceFile;
pub use config::DeviceFileMemory;
pub use config::EmuConfig;
pub use config::InstSetConfig;
pub use config::MemoryConfig;
pub use config::OthersConfig;
pub use mem::Memory;
pub use mem::MemoryError;
pub use mem::MmioRegion;
pub use state::Event;
pub use state::ExecMode;
pub use state::ExecState;
pub use state::State;
pub use state::StateError;
pub use state::get_register_alias;
pub use decode::DecodeError;
pub use decode::InstDecoder;
pub use decode::Instruction;
pub use decode::OpKind;
pub use decode::is_compressed;
pub use decode::is_inst_addr_misaligned;
pub use exception::Exception;
pub use devmgr::Device;
pub use devmgr::DeviceFactory;
pub use devmgr::DeviceManager;
pub use emu::step_budget;
pub use emu::stop_kind_for;
pub use emu::Emulator;
pub use emu::StopKind;
pub use bkpt::Breakpoint;
pub use bkpt::BreakpointManager;
pub use execute::ExecuteError;
pub use execute::RV64I;
pub use syscall::handle_syscall;
pub use syscall::SyscallContext;
pub use syscall::SyscallEffect;
pub use syscall::SyscallError;
pub use difftest::DiffMode;
pub use difftest::DiffState;
pub use difftest::Difftest;
