//! The reference devices: the UART's register behavior and the timer's
//! wall-clock counter.

use rv64_emu::device::le_bytes_prefix;
use rv64_emu::MmioDevice;
use rv64_emu::Timer;
use rv64_emu::Uart;

const UART_DATA_REG: u64 = 0x00;
const UART_STATUS_REG: u64 = 0x04;
const UART_STATUS_TX_READY: u32 = 0x01;
const CNT0_REG: u64 = 0x00;

#[test]
fn test_uart_creation() {
    let uart = Uart::new("test_uart".to_string());
    assert_eq!(uart.name(), "test_uart");
}

#[test]
fn test_uart_status_read() {
    let mut uart = Uart::new("test".to_string());
    let result = uart.read(UART_STATUS_REG, 4).unwrap();
    let status = u32::from_le_bytes([result[0], result[1], result[2], result[3]]);
    assert_eq!(status & UART_STATUS_TX_READY, UART_STATUS_TX_READY);
}

#[test]
fn test_uart_data_write() {
    let mut uart = Uart::new("test".to_string());
    let result = uart.write(UART_DATA_REG, &[b'A']);
    assert!(result.is_ok());
}

#[test]
fn test_invalid_register() {
    let mut uart = Uart::new("test".to_string());
    let result = uart.read(0x100, 1);
    assert!(result.is_err());
}

#[test]
fn test_uart_wrong_width_rejected() {
    let mut uart = Uart::new("u".to_string());
    assert!(uart.read(UART_DATA_REG, 4).is_err());
    assert!(uart.read(UART_STATUS_REG, 1).is_err());
    assert!(uart.write(UART_STATUS_REG, &[0, 0, 0, 0]).is_err());
    assert!(uart.write(0x08, &[0]).is_err());
    assert!(uart.write(0x08, &[0, 0, 0, 0]).is_ok());
}

#[test]
fn test_uart_data_read_drains_buffer() {
    let mut uart = Uart::new("u".to_string());
    let first = uart.read(UART_DATA_REG, 1).unwrap();
    assert_eq!(first, vec![0]);
}

#[test]
fn create_timer() {
    let t = Timer::new("t0".to_string());
    assert_eq!(t.name(), "t0");
}

#[test]
fn read_time_nonzero() {
    let mut t = Timer::new("t".to_string());
    let r = t.read(CNT0_REG, 8).unwrap();
    assert_eq!(r.len(), 8);
    let ts = u64::from_le_bytes([r[0], r[1], r[2], r[3], r[4], r[5], r[6], r[7]]);
    assert!(ts > 0);
}

#[test]
fn test_timer_widths_and_control() {
    let mut t = Timer::new("t".to_string());
    assert_eq!(t.read(0x00, 1).unwrap().len(), 1);
    assert_eq!(t.read(0x04, 2).unwrap().len(), 2);
    assert_eq!(t.read(0x08, 4).unwrap().len(), 4);
    assert!(t.read(0x00, 3).is_err());
    assert_eq!(t.read(0x0C, 4).unwrap(), vec![0, 0, 0, 0]);
    assert!(t.write(0x00, &[1]).is_err());
    assert!(t.read(0x20, 4).is_err());
}

#[test]
fn test_le_bytes_prefix_values() {
    assert_eq!(le_bytes_prefix(0x0102_0304_0506_0708, 4), vec![0x08, 0x07, 0x06, 0x05]);
    assert_eq!(le_bytes_prefix(0x0102_0304_0506_0708, 8), vec![0x08, 0x07, 0x06, 0x05, 0x04, 0x03, 0x02, 0x01]);
    assert_eq!(le_bytes_prefix(0xFF, 1), vec![0xFF]);
    assert_eq!(le_bytes_prefix(0xFF, 0), Vec::<u8>::new());
}
