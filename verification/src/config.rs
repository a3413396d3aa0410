//! The typed configuration the emulator is built from: the main
//! configuration (boot PC, enabled ISA extensions, debug sizes) and the
//! device file (RAM placement and the device list). Reading and parsing the
//! TOML documents happens outside the library; it hands over these plain
//! values.

use vstd::prelude::*;

verus! {

/// The memory section of the main configuration.
#[derive(Debug, Clone, Copy)]
pub struct MemoryConfig {
    /// The address execution starts at.
    pub boot_pc: u64,
}

/// Which ISA extensions are enabled; the base integer set is always on.
#[derive(Debug, Clone, Copy)]
pub struct InstSetConfig {
    pub m_ext: bool,
    pub a_ext: bool,
    pub c_ext: bool,
}

/// Debugging buffer sizes.
#[derive(Debug, Clone, Copy)]
pub struct DebugConfig {
    /// Capacity of the event ring.
    pub event_list_size: usize,
    /// Capacity of the instruction trace ring.
    pub instruction_tracer_list_size: usize,
}

/// Remaining tunables.
#[derive(Debug, Clone, Copy)]
pub struct OthersConfig {
    /// Requested size of the optional decode cache.
    pub decoder_cache_size: usize,
}

/// One device entry of the device file.
#[derive(Debug, Clone)]
pub struct DeviceConfig {
    pub name: String,
    pub device_type: String,
    pub base: u64,
    pub size: u64,
    pub enabled: bool,
}

/// The default for a device entry's `enabled` field.
pub fn default_true() -> (r: bool)
    ensures
        r,
{
    true
}

/// The main configuration.
#[derive(Debug, Clone, Copy)]
pub struct EmuConfig {
    pub memory: MemoryConfig,
    pub inst_set: InstSetConfig,
    pub debug: DebugConfig,
    pub others: OthersConfig,
}

/// The memory section of the device file.
#[derive(Debug, Clone, Copy)]
pub struct DeviceFileMemory {
    /// The address RAM is based at.
    pub memory_base: u64,
    /// The RAM size in MiB; must make a power-of-two byte count.
    pub memory_size: usize,
}

/// The device file: RAM placement and the devices to map.
#[derive(Debug, Clone)]
pub struct DeviceFile {
    pub memory: DeviceFileMemory,
    pub devices: Vec<DeviceConfig>,
}

} // verus!
