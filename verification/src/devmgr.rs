//! Building devices from the configuration and mapping them onto the bus.

use vstd::prelude::*;

use crate::config::DeviceConfig;
use crate::device::DeviceError as MmioDeviceError;
use crate::device::MmioDevice;
use crate::device::Timer;
use crate::device::Uart;
use crate::mem::ranges_disjoint;
use crate::mem::Memory;
use crate::mem::MemoryError;

verus! {

/// An error while building or mapping devices.
#[derive(Debug)]
pub enum DeviceError {
    /// The configuration names a device type this build does not provide.
    UnknownDeviceType(String),
    /// The device could not be created or its address range is unusable.
    CreationFailed(String),
    /// The bus rejected the mapping.
    Mapping(MemoryError),
}

/// A device the factory can build, dispatched without indirection.
pub enum Device {
    Uart(Uart),
    Timer(Timer),
}

impl MmioDevice for Device {
    fn read(&mut self, offset: u64, size: usize) -> (r: Result<Vec<u8>, MmioDeviceError>) {
        match self {
            Device::Uart(u) => u.read(offset, size),
            Device::Timer(t) => t.read(offset, size),
        }
    }

    fn write(&mut self, offset: u64, data: &[u8]) -> (r: Result<(), MmioDeviceError>) {
        match self {
            Device::Uart(u) => u.write(offset, data),
            Device::Timer(t) => t.write(offset, data),
        }
    }

    fn name(&self) -> (r: &str) {
        match self {
            Device::Uart(u) => u.name(),
            Device::Timer(t) => t.name(),
        }
    }
}

/// Builds a device from one configuration entry.
pub struct DeviceFactory;

impl DeviceFactory {
    /// Create the device an entry asks for; only the UART type is wired up
    /// here.
    pub fn create_device(config: &DeviceConfig) -> (r: Result<Device, DeviceError>)
        ensures
            config.device_type@ == "uart"@ ==> (r matches Ok(d) && d matches Device::Uart(u)
                && u.spec_name() == config.name@),
            config.device_type@ != "uart"@ ==> (r matches Err(e) && e matches DeviceError::UnknownDeviceType(t)
                && t@ == config.device_type@),
    {
        let uart_kind: String = "uart".to_owned();
        if config.device_type == uart_kind {
            Ok(Device::Uart(Uart::new(config.name.clone())))
        } else {
            Err(DeviceError::UnknownDeviceType(config.device_type.clone()))
        }
    }
}

/// The enabled entries of a device list, in order.
pub open spec fn spec_enabled_configs(s: Seq<DeviceConfig>) -> Seq<DeviceConfig>
    decreases s.len(),
{
    if s.len() == 0 {
        Seq::empty()
    } else {
        spec_enabled_configs(s.drop_last()) + (if s.last().enabled {
            seq![s.last()]
        } else {
            Seq::empty()
        })
    }
}

/// Every enabled entry of the list appears in the original list, enabled,
/// at some index.
proof fn lemma_enabled_member(s: Seq<DeviceConfig>, k: int)
    requires
        0 <= k < spec_enabled_configs(s).len(),
    ensures
        exists|idx: int|
            0 <= idx < s.len() && (#[trigger] s[idx]).enabled && spec_enabled_configs(s)[k]
                == s[idx],
    decreases s.len(),
{
    if s.len() == 0 {
    } else if k < spec_enabled_configs(s.drop_last()).len() {
        lemma_enabled_member(s.drop_last(), k);
        let idx = choose|idx: int|
            0 <= idx < s.drop_last().len() && (#[trigger] s.drop_last()[idx]).enabled
                && spec_enabled_configs(s.drop_last())[k] == s.drop_last()[idx];
        assert(s[idx].enabled && spec_enabled_configs(s)[k] == s[idx]);
    } else {
        assert(s[s.len() - 1].enabled && spec_enabled_configs(s)[k] == s[s.len() - 1]);
    }
}

/// A configuration entry the factory can realise over a usable address
/// range.
pub open spec fn config_usable(c: DeviceConfig) -> bool {
    &&& c.device_type@ == "uart"@
    &&& c.size >= 1
    &&& c.base + c.size <= u64::MAX
}

/// Every enabled entry is usable, clear of RAM, clear of every region the
/// bus already holds, and clear of every other enabled entry: then mapping
/// the whole list cannot fail.
pub open spec fn devices_mappable(s: Seq<DeviceConfig>, mem: &Memory<Device>) -> bool {
    forall|i: int|
        0 <= i < s.len() && (#[trigger] s[i]).enabled ==> {
            &&& config_usable(s[i])
            &&& ranges_disjoint(s[i].base, s[i].size, mem.base_addr(), mem.ram_size() as u64)
            &&& forall|p: int|
                0 <= p < mem.regions().len() ==> ranges_disjoint(
                    s[i].base,
                    s[i].size,
                    (#[trigger] mem.regions()[p]).base,
                    mem.regions()[p].size,
                )
            &&& forall|j: int|
                0 <= j < s.len() && (#[trigger] s[j]).enabled && j != i ==> ranges_disjoint(
                    s[i].base,
                    s[i].size,
                    s[j].base,
                    s[j].size,
                )
        }
}

/// The regions starting at `offset` carry, in order, exactly the base,
/// size and name of each listed configuration entry.
pub open spec fn regions_match_configs(
    regions: Seq<crate::mem::MmioRegion<Device>>,
    offset: int,
    configs: Seq<DeviceConfig>,
) -> bool {
    forall|j: int|
        0 <= j < configs.len() ==> {
            &&& (#[trigger] regions[offset + j]).base == configs[j].base
            &&& regions[offset + j].size == configs[j].size
            &&& regions[offset + j].name@ == configs[j].name@
        }
}

/// Maps every enabled configured device onto the bus.
pub struct DeviceManager;

impl DeviceManager {
    /// Create and map each enabled device in order; disabled entries are
    /// skipped entirely. On success the new regions carry, in order, the
    /// base, size and name of each enabled entry, after the regions the bus
    /// already held, which stay in place. The walk stops at the first
    /// failing entry — an unknown type, an unusable address range, or a
    /// mapping the bus rejects — returning that entry's error with the
    /// devices processed before it still mapped. When every enabled entry
    /// is usable and conflict-free, success is owed.
    pub fn initialize_devices(
        memory: &mut Memory<Device>,
        device_configs: &[DeviceConfig],
    ) -> (r: Result<(), DeviceError>)
        requires
            old(memory).wf(),
        ensures
            final(memory).wf(),
            final(memory).ram() == old(memory).ram(),
            final(memory).base_addr() == old(memory).base_addr(),
            final(memory).ram_size() == old(memory).ram_size(),
            final(memory).regions().subrange(0, old(memory).regions().len() as int) == old(memory).regions(),
            r is Ok ==> final(memory).regions().len() == old(memory).regions().len()
                + spec_enabled_configs(device_configs@).len(),
            r is Ok ==> regions_match_configs(
                final(memory).regions(),
                old(memory).regions().len() as int,
                spec_enabled_configs(device_configs@),
            ),
            devices_mappable(device_configs@, old(memory)) ==> r is Ok,
            r is Err ==> exists|i: int|
                0 <= i < device_configs@.len() && (#[trigger] device_configs@[i]).enabled && final(memory).regions().len() == old(memory).regions().len() + spec_enabled_configs(
                    device_configs@.take(i),
                ).len() && regions_match_configs(
                    final(memory).regions(),
                    old(memory).regions().len() as int,
                    spec_enabled_configs(device_configs@.take(i)),
                ) && (device_configs@[i].device_type@ != "uart"@ ==> (r matches Err(
                    DeviceError::UnknownDeviceType(t),
                ) && t@ == device_configs@[i].device_type@)) && (device_configs@[i].device_type@
                    == "uart"@ && !(device_configs@[i].size >= 1 && device_configs@[i].base
                    + device_configs@[i].size <= u64::MAX) ==> r matches Err(
                    DeviceError::CreationFailed(_),
                )) && (config_usable(device_configs@[i]) ==> (r matches Err(
                    DeviceError::Mapping(MemoryError::MmioOverlap { addr }),
                ) && addr == device_configs@[i].base)),
    {
        let ghost pre_len = old(memory).regions().len() as int;
        let n = device_configs.len();
        let mut i: usize = 0;
        while i < n
            invariant
                old(memory).wf(),
                memory.wf(),
                pre_len == old(memory).regions().len(),
                n == device_configs@.len(),
                i <= n,
                memory.ram() == old(memory).ram(),
                memory.base_addr() == old(memory).base_addr(),
                memory.ram_size() == old(memory).ram_size(),
                memory.regions().subrange(0, pre_len) == old(memory).regions(),
                memory.regions().len() == pre_len + spec_enabled_configs(
                    device_configs@.take(i as int),
                ).len(),
                regions_match_configs(
                    memory.regions(),
                    pre_len,
                    spec_enabled_configs(device_configs@.take(i as int)),
                ),
            decreases n - i,
        {
            let config = &device_configs[i];
            proof {
                assert(device_configs@.take(i + 1).drop_last() =~= device_configs@.take(i as int));
            }
            if config.enabled {
                let device = match DeviceFactory::create_device(config) {
                    Ok(d) => d,
                    Err(e) => {
                        return Err(e);
                    },
                };
                if config.size < 1 || config.base > u64::MAX - config.size {
                    return Err(
                        DeviceError::CreationFailed("device address range is unusable".to_owned()),
                    );
                }
                let ghost pre_map = *memory;
                let name = config.name.clone();
                match memory.map_mmio(config.base, config.size, device, name) {
                    Ok(_) => (),
                    Err(e) => {
                        proof {
                            assert(memory.regions() == pre_map.regions());
                            if devices_mappable(device_configs@, old(memory)) {
                                let cs = device_configs@;
                                let c = cs[i as int];
                                assert(c.enabled);
                                assert forall|p: int|
                                    0 <= p < pre_map.regions().len() implies ranges_disjoint(
                                    c.base,
                                    c.size,
                                    (#[trigger] pre_map.regions()[p]).base,
                                    pre_map.regions()[p].size,
                                ) by {
                                    if p < pre_len {
                                        assert(pre_map.regions()[p] == pre_map.regions().subrange(
                                            0,
                                            pre_len,
                                        )[p]);
                                        assert(ranges_disjoint(
                                            c.base,
                                            c.size,
                                            old(memory).regions()[p].base,
                                            old(memory).regions()[p].size,
                                        ));
                                    } else {
                                        let k = p - pre_len;
                                        let es = spec_enabled_configs(cs.take(i as int));
                                        lemma_enabled_member(cs.take(i as int), k);
                                        let idx = choose|idx: int|
                                            0 <= idx < cs.take(i as int).len() && (
                                            #[trigger] cs.take(i as int)[idx]).enabled && es[k]
                                                == cs.take(i as int)[idx];
                                        assert(cs[idx].enabled && idx < i);
                                        assert(ranges_disjoint(
                                            c.base,
                                            c.size,
                                            cs[idx].base,
                                            cs[idx].size,
                                        ));
                                        assert(pre_map.regions()[pre_len + k].base == es[k].base
                                            && pre_map.regions()[pre_len + k].size
                                            == es[k].size);
                                        assert(pre_map.regions()[p].base == es[k].base
                                            && pre_map.regions()[p].size == es[k].size);
                                    }
                                }
                                assert(ranges_disjoint(
                                    c.base,
                                    c.size,
                                    pre_map.base_addr(),
                                    pre_map.ram_size() as u64,
                                ));
                                assert(!pre_map.new_region_conflicts(c.base, c.size));
                                assert(false);
                            }
                        }
                        return Err(DeviceError::Mapping(e));
                    },
                }
                proof {
                    let prior = pre_map.regions();
                    let now = memory.regions();
                    let es = spec_enabled_configs(device_configs@.take(i + 1));
                    assert(now.subrange(0, pre_len) =~= old(memory).regions());
                    assert(es =~= spec_enabled_configs(device_configs@.take(i as int)) + seq![
                        device_configs@[i as int],
                    ]);
                    assert forall|j: int| 0 <= j < es.len() implies {
                        &&& (#[trigger] now[pre_len + j]).base == es[j].base
                        &&& now[pre_len + j].size == es[j].size
                        &&& now[pre_len + j].name@ == es[j].name@
                    } by {
                        if j < es.len() - 1 {
                            assert(now[pre_len + j] == prior.subrange(0, prior.len() as int)[pre_len
                                + j]);
                            assert(now[pre_len + j] == prior[pre_len + j]);
                        } else {
                            assert(now[pre_len + j] == now.last());
                        }
                    }
                    if devices_mappable(device_configs@, old(memory)) {
                        assert(device_configs@[i as int].enabled);
                    }
                }
            }
            i = i + 1;
        }
        proof {
            assert(device_configs@.take(n as int) =~= device_configs@);
        }
        Ok(())
    }
}

/// Every enabled entry of the device file is usable, clear of the RAM
/// window it declares, and clear of every other enabled entry: then the
/// whole emulator can be built.
pub open spec fn spec_devices_buildable(device_file: &crate::config::DeviceFile) -> bool {
    let bytes = device_file.memory.memory_size * 0x100000;
    forall|i: int|
        0 <= i < device_file.devices@.len() && (#[trigger] device_file.devices@[i]).enabled ==> {
            &&& config_usable(device_file.devices@[i])
            &&& ranges_disjoint(
                device_file.devices@[i].base,
                device_file.devices@[i].size,
                device_file.memory.memory_base,
                bytes as u64,
            )
            &&& forall|j: int|
                0 <= j < device_file.devices@.len() && (#[trigger] device_file.devices@[j]).enabled
                    && j != i ==> ranges_disjoint(
                    device_file.devices@[i].base,
                    device_file.devices@[i].size,
                    device_file.devices@[j].base,
                    device_file.devices@[j].size,
                )
        }
}

/// The address range and name stand for some listed configuration entry.
pub open spec fn region_listed(
    base: u64,
    size: u64,
    name: Seq<char>,
    es: Seq<DeviceConfig>,
) -> bool {
    exists|k: int|
        0 <= k < es.len() && base == (#[trigger] es[k]).base && size == es[k].size && name
            == es[k].name@
}

/// Every region of the bus carries the base, size and name of some enabled
/// entry of the device file.
pub open spec fn regions_reflect_devices(
    mem: &Memory<Device>,
    device_file: &crate::config::DeviceFile,
) -> bool {
    forall|j: int|
        0 <= j < mem.regions().len() ==> region_listed(
            (#[trigger] mem.regions()[j]).base,
            mem.regions()[j].size,
            mem.regions()[j].name@,
            spec_enabled_configs(device_file.devices@),
        )
}

} // verus!
