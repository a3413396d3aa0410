//! The memory/MMIO bus: creation, mapping and overlap rejection, RAM and
//! device accesses, the fast fetch path, and the range check.

use rv64_emu::DeviceError;
use rv64_emu::DeviceFile;
use rv64_emu::DeviceFileMemory;
use rv64_emu::Memory;
use rv64_emu::MemoryError;
use rv64_emu::MmioDevice;

struct MockUart {
    data: Vec<u8>,
}

impl MockUart {
    fn new() -> Self {
        Self { data: Vec::new() }
    }
}

impl MmioDevice for MockUart {
    fn read(&mut self, _offset: u64, size: usize) -> Result<Vec<u8>, DeviceError> {
        Ok(vec![0x01; size])
    }

    fn write(&mut self, _offset: u64, data: &[u8]) -> Result<(), DeviceError> {
        self.data.extend_from_slice(data);
        Ok(())
    }

    fn name(&self) -> &str {
        "mock_uart"
    }
}

fn create_test_device_file() -> DeviceFile {
    DeviceFile {
        memory: DeviceFileMemory { memory_base: 0x8000_0000, memory_size: 128 },
        devices: Vec::new(),
    }
}

#[test]
fn test_memory_creation() {
    let device_file = create_test_device_file();
    let memory: Memory<MockUart> = Memory::new(&device_file).unwrap();
    assert_eq!(memory.ram_len(), 128 * 1024 * 1024);
}

#[test]
fn test_memory_creation_rejects_non_power_of_two() {
    let device_file = DeviceFile {
        memory: DeviceFileMemory { memory_base: 0x8000_0000, memory_size: 96 },
        devices: Vec::new(),
    };
    let r: Result<Memory<MockUart>, MemoryError> = Memory::new(&device_file);
    assert!(matches!(r, Err(MemoryError::Misaligned { addr: 0, alignment: 2 })));
}

#[test]
fn test_mmio_mapping() {
    let device_file = create_test_device_file();
    let mut memory: Memory<MockUart> = Memory::new(&device_file).unwrap();

    let uart = MockUart::new();
    let result = memory.map_mmio(0x1000_0000, 0x100, uart, "test_uart".to_string());
    assert!(result.is_ok());

    assert_eq!(memory.mmio_region_count(), 1);
    assert_eq!(memory.mmio_region_base(0), 0x1000_0000);
    assert_eq!(memory.mmio_region_size(0), 0x100);
    assert_eq!(memory.mmio_region_name(0), "test_uart");
}

#[test]
fn test_mmio_overlap_detection() {
    let device_file = create_test_device_file();
    let mut memory: Memory<MockUart> = Memory::new(&device_file).unwrap();

    let uart1 = MockUart::new();
    memory.map_mmio(0x1000_0000, 0x100, uart1, "uart1".to_string()).unwrap();

    let uart2 = MockUart::new();
    let result = memory.map_mmio(0x1000_0050, 0x100, uart2, "uart2".to_string());
    assert!(matches!(result, Err(MemoryError::MmioOverlap { .. })));
}

#[test]
fn test_mmio_overlap_with_ram() {
    let device_file = create_test_device_file();
    let mut memory: Memory<MockUart> = Memory::new(&device_file).unwrap();
    let uart = MockUart::new();
    let result = memory.map_mmio(0x8000_1000, 0x100, uart, "uart".to_string());
    assert!(matches!(result, Err(MemoryError::MmioOverlap { addr: 0x8000_1000 })));
}

#[test]
fn test_mmio_read_write() {
    let device_file = create_test_device_file();
    let mut memory: Memory<MockUart> = Memory::new(&device_file).unwrap();

    let uart = MockUart::new();
    memory.map_mmio(0x1000_0000, 0x100, uart, "test_uart".to_string()).unwrap();

    memory.write_byte(0x1000_0000, b'H').unwrap();
    memory.write_byte(0x1000_0001, b'i').unwrap();

    assert_eq!(memory.mmio_device(0).data, vec![b'H', b'i']);

    let data = memory.read_byte(0x1000_0000).unwrap();
    assert_eq!(data, 0x01);
    assert!(memory.is_last_mmio());
    assert!(!memory.is_last_mmio());
}

#[test]
fn test_regular_memory_access() {
    let device_file = create_test_device_file();
    let mut memory: Memory<MockUart> = Memory::new(&device_file).unwrap();

    let addr = 0x8000_1000;
    memory.write_byte(addr, 0x42).unwrap();
    let data = memory.read_byte(addr).unwrap();
    assert_eq!(data, 0x42);

    memory.write_word(addr + 4, 0x12345678).unwrap();
    let word = memory.read_word(addr + 4).unwrap();
    assert_eq!(word, 0x12345678);
}

#[test]
fn test_fast_u32_read() {
    let device_file = create_test_device_file();
    let mut memory: Memory<MockUart> = Memory::new(&device_file).unwrap();

    let addr = 0x8000_1000;
    let test_value = 0x12345678u32;

    memory.write_word(addr, test_value).unwrap();

    let normal_read = memory.read_word(addr).unwrap();
    let fast_read = memory.read_u32_fast(addr);

    assert_eq!(normal_read, fast_read);
    assert_eq!(fast_read, test_value);
}

#[test]
fn test_mem_region_range_check() {
    let device_file = create_test_device_file();
    let memory: Memory<MockUart> = Memory::new(&device_file).unwrap();

    assert!(memory.is_mem_region_range(0x8000_0000, 4));
    assert!(memory.is_mem_region_range(0x8000_1000, 4));

    let last_valid_addr = 0x8000_0000 + (128 * 1024 * 1024) - 4;
    assert!(memory.is_mem_region_range(last_valid_addr, 4));

    let overflow_addr = 0x8000_0000 + (128 * 1024 * 1024) - 3;
    assert!(!memory.is_mem_region_range(overflow_addr, 4));

    assert!(!memory.is_mem_region_range(0x9000_0000, 4));
    assert!(!memory.is_mem_region_range(0x7000_0000, 4));
}

#[test]
fn test_write_then_read_round_trip_all_widths() {
    let device_file = create_test_device_file();
    let mut memory: Memory<MockUart> = Memory::new(&device_file).unwrap();
    let addr = 0x8000_2000;

    memory.write_byte(addr, 0xAB).unwrap();
    assert_eq!(memory.read_byte(addr).unwrap(), 0xAB);

    memory.write_halfword(addr, 0xBEEF).unwrap();
    assert_eq!(memory.read_halfword(addr).unwrap(), 0xBEEF);

    memory.write_word(addr, 0xDEADBEEF).unwrap();
    assert_eq!(memory.read_word(addr).unwrap(), 0xDEADBEEF);

    memory.write_doubleword(addr, 0xDEADBEEF_CAFEBABE).unwrap();
    assert_eq!(memory.read_doubleword(addr).unwrap(), 0xDEADBEEF_CAFEBABE);
}

#[test]
fn test_read_write_restores_ram() {
    let device_file = create_test_device_file();
    let mut memory: Memory<MockUart> = Memory::new(&device_file).unwrap();
    let addr = 0x8000_3000;
    memory.write_doubleword(addr, 0x0123_4567_89AB_CDEF).unwrap();

    let original = memory.read(addr, 8).unwrap();
    memory.write(addr, &original).unwrap();
    let again = memory.read(addr, 8).unwrap();
    assert_eq!(original, again);
    assert_eq!(memory.read_doubleword(addr).unwrap(), 0x0123_4567_89AB_CDEF);
}

#[test]
fn test_out_of_bounds_error_carries_location() {
    let device_file = create_test_device_file();
    let mut memory: Memory<MockUart> = Memory::new(&device_file).unwrap();
    let r = memory.read(0x7000_0000, 4);
    assert!(matches!(r, Err(MemoryError::OutOfBounds { addr: 0x7000_0000, size: 4 })));
    let w = memory.write(0x7000_0000, &[1, 2, 3, 4]);
    assert!(matches!(w, Err(MemoryError::OutOfBounds { addr: 0x7000_0000, size: 4 })));
}

#[test]
fn test_unmap_mmio() {
    let device_file = create_test_device_file();
    let mut memory: Memory<MockUart> = Memory::new(&device_file).unwrap();
    memory.map_mmio(0x1000_0000, 0x100, MockUart::new(), "a".to_string()).unwrap();
    assert!(memory.unmap_mmio(0x1000_0000));
    assert!(!memory.unmap_mmio(0x1000_0000));
    assert_eq!(memory.mmio_region_count(), 0);
}

#[test]
fn test_sort_orders_regions_by_base() {
    let device_file = create_test_device_file();
    let mut memory: Memory<MockUart> = Memory::new(&device_file).unwrap();
    memory.map_mmio(0x3000_0000, 0x100, MockUart::new(), "c".to_string()).unwrap();
    memory.map_mmio(0x1000_0000, 0x100, MockUart::new(), "a".to_string()).unwrap();
    memory.map_mmio(0x2000_0000, 0x100, MockUart::new(), "b".to_string()).unwrap();
    memory.sort_mmio_regions();
    assert_eq!(memory.mmio_region_base(0), 0x1000_0000);
    assert_eq!(memory.mmio_region_base(1), 0x2000_0000);
    assert_eq!(memory.mmio_region_base(2), 0x3000_0000);
    assert_eq!(memory.read_byte(0x2000_0010).unwrap(), 0x01);
}
