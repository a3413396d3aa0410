//! The MMIO device contract and the two reference devices: a UART whose data
//! register forwards bytes to the standard error stream, and a timer whose
//! counter registers read as the wall-clock microseconds since the epoch.

use vstd::prelude::*;

verus! {

/// An error reported by a device for an access it does not accept.
#[derive(Debug)]
pub enum DeviceError {
    /// The offset does not name a register of this device.
    Access(String),
    /// The register exists but does not support this operation or width.
    Unsupported(String),
    /// The device itself failed while performing the operation.
    Internal(String),
}

/// The interface every memory-mapped device exposes to the bus. `offset` is
/// relative to the base address the device was mapped at; data crosses the
/// interface in little-endian byte order.
pub trait MmioDevice: Sized {
    /// Read `size` bytes from the register at `offset`.
    fn read(&mut self, offset: u64, size: usize) -> (r: Result<Vec<u8>, DeviceError>);

    /// Write the bytes of `data` to the register at `offset`.
    fn write(&mut self, offset: u64, data: &[u8]) -> (r: Result<(), DeviceError>);

    /// Advance the device by `cycles` clock cycles.
    fn tick(&mut self, cycles: u64) {
    }

    /// The pending interrupt number, if any.
    fn irq_pending(&self) -> (r: Option<u32>) {
        None
    }

    /// The device's name, for diagnostics.
    fn name(&self) -> (r: &str);
}

/// Relies on std::io::Write::write_all: hands one byte to the standard error
/// stream and reports whether the write succeeded.
#[verifier::external_body]
fn stderr_write_byte(b: u8) -> (ok: bool) {
    std::io::Write::write_all(&mut std::io::stderr(), &[b]).is_ok()
}

/// Relies on std::io::Write::flush: flushes the standard error stream and
/// reports whether that succeeded.
#[verifier::external_body]
fn stderr_flush() -> (ok: bool) {
    std::io::Write::flush(&mut std::io::stderr()).is_ok()
}

/// Relies on std::time::SystemTime::now and duration_since: the wall-clock
/// time in microseconds since the Unix epoch, or 0 if the clock is set before
/// the epoch. No two calls are promised to agree.
#[verifier::external_body]
fn current_time_us() -> u64 {
    match std::time::SystemTime::now().duration_since(std::time::UNIX_EPOCH) {
        Ok(dur) => dur.as_micros() as u64,
        Err(_) => 0,
    }
}

/// The byte at position `k` (little-endian) of a 64-bit value.
pub open spec fn spec_le_byte(value: u64, k: int) -> u8 {
    ((value >> (8 * k) as u64) & 0xFF) as u8
}

/// The low `size` bytes of `value`, least significant first.
pub fn le_bytes_prefix(value: u64, size: usize) -> (r: Vec<u8>)
    requires
        size <= 8,
    ensures
        r@.len() == size,
        forall|k: int| 0 <= k < size ==> r@[k] == spec_le_byte(value, k),
{
    let mut out: Vec<u8> = Vec::new();
    let mut k: usize = 0;
    while k < size
        invariant
            k <= size,
            size <= 8,
            out@.len() == k,
            forall|j: int| 0 <= j < k ==> out@[j] == spec_le_byte(value, j),
        decreases size - k,
    {
        let shift: u64 = 8 * (k as u64);
        out.push(((value >> shift) & 0xFF) as u8);
        k = k + 1;
    }
    out
}

/// A UART with three registers: data at 0x00 (byte access; writes emit the
/// byte on standard error, reads drain the receive buffer), status at 0x04
/// (word access; bit 0 = transmit ready, bit 1 = receive valid), control at
/// 0x08 (word access; reads as 0, writes are accepted and ignored).
pub struct Uart {
    name: String,
    tx_ready: bool,
    rx_buffer: Option<u8>,
}

impl Uart {
    /// The transmitter-ready flag, always set for this device.
    pub closed spec fn spec_tx_ready(&self) -> bool {
        self.tx_ready
    }

    /// The byte waiting in the receive buffer, if any.
    pub closed spec fn spec_rx_buffer(&self) -> Option<u8> {
        self.rx_buffer
    }

    /// The device name.
    pub closed spec fn spec_name(&self) -> Seq<char> {
        self.name@
    }

    /// The value of the status register: bit 0 = transmit ready, bit 1 =
    /// receive valid.
    pub open spec fn spec_status(&self) -> u32 {
        ((if self.spec_tx_ready() {
            1u32
        } else {
            0u32
        }) + (if self.spec_rx_buffer() is Some {
            2u32
        } else {
            0u32
        })) as u32
    }

    /// Create a UART that is ready to transmit and has nothing to receive.
    pub fn new(name: String) -> (r: Uart)
        ensures
            r.spec_name() == name@,
            r.spec_tx_ready(),
            r.spec_rx_buffer() is None,
    {
        Uart { name, tx_ready: true, rx_buffer: None }
    }
}

impl MmioDevice for Uart {
    fn read(&mut self, offset: u64, size: usize) -> (r: Result<Vec<u8>, DeviceError>)
        ensures
            final(self).spec_name() == old(self).spec_name(),
            final(self).spec_tx_ready() == old(self).spec_tx_ready(),
            offset == 0x00 && size == 1 ==> (r matches Ok(v) && v@ =~= seq![
                match old(self).spec_rx_buffer() {
                    Some(b) => b,
                    None => 0u8,
                },
            ] && final(self).spec_rx_buffer() is None),
            offset == 0x00 && size != 1 ==> ((r matches Err(e) && e is Unsupported)
                && *final(self) == *old(self)),
            offset == 0x04 ==> final(self).spec_rx_buffer() == old(self).spec_rx_buffer(),
            offset == 0x04 && size == 4 ==> (r matches Ok(v) && v@ =~= seq![
                old(self).spec_status() as u8,
                0u8,
                0u8,
                0u8,
            ]),
            offset == 0x04 && size != 4 ==> (r matches Err(e) && e is Unsupported),
            offset == 0x08 ==> final(self).spec_rx_buffer() == old(self).spec_rx_buffer(),
            offset == 0x08 && size == 4 ==> (r matches Ok(v) && v@ =~= seq![0u8, 0u8, 0u8, 0u8]),
            offset == 0x08 && size != 4 ==> (r matches Err(e) && e is Unsupported),
            !(offset == 0x00 || offset == 0x04 || offset == 0x08) ==> ((r matches Err(e)
                && e is Access) && *final(self) == *old(self)),
    {
        if offset == 0x00 {
            if size != 1 {
                return Err(
                    DeviceError::Unsupported("uart data register takes byte access only".to_owned()),
                );
            }
            let data = match self.rx_buffer {
                Some(b) => b,
                None => 0u8,
            };
            self.rx_buffer = None;
            let mut v: Vec<u8> = Vec::new();
            v.push(data);
            Ok(v)
        } else if offset == 0x04 {
            if size != 4 {
                return Err(
                    DeviceError::Unsupported("uart status register takes word access only".to_owned()),
                );
            }
            let mut status: u32 = 0;
            if self.tx_ready {
                status = status + 1;
            }
            if self.rx_buffer.is_some() {
                status = status + 2;
            }
            let mut v: Vec<u8> = Vec::new();
            v.push(status as u8);
            v.push(0u8);
            v.push(0u8);
            v.push(0u8);
            Ok(v)
        } else if offset == 0x08 {
            if size != 4 {
                return Err(
                    DeviceError::Unsupported("uart control register takes word access only".to_owned()),
                );
            }
            let mut v: Vec<u8> = Vec::new();
            v.push(0u8);
            v.push(0u8);
            v.push(0u8);
            v.push(0u8);
            Ok(v)
        } else {
            Err(DeviceError::Access("uart has no register at this offset".to_owned()))
        }
    }

    fn write(&mut self, offset: u64, data: &[u8]) -> (r: Result<(), DeviceError>)
        ensures
            *final(self) == *old(self),
            offset == 0x00 && data@.len() == 1 ==> (r matches Ok(_) || (r matches Err(e)
                && e is Internal)),
            offset == 0x00 && data@.len() != 1 ==> (r matches Err(e) && e is Unsupported),
            offset == 0x04 ==> (r matches Err(e) && e is Unsupported),
            offset == 0x08 && data@.len() == 4 ==> (r matches Ok(_)),
            offset == 0x08 && data@.len() != 4 ==> (r matches Err(e) && e is Unsupported),
            !(offset == 0x00 || offset == 0x04 || offset == 0x08) ==> (r matches Err(e)
                && e is Access),
    {
        if offset == 0x00 {
            if data.len() != 1 {
                return Err(
                    DeviceError::Unsupported("uart data register takes byte access only".to_owned()),
                );
            }
            let byte = data[0];
            if !stderr_write_byte(byte) {
                return Err(DeviceError::Internal("uart output failed".to_owned()));
            }
            if !stderr_flush() {
                return Err(DeviceError::Internal("uart flush failed".to_owned()));
            }
            Ok(())
        } else if offset == 0x04 {
            Err(DeviceError::Unsupported("uart status register is read-only".to_owned()))
        } else if offset == 0x08 {
            if data.len() != 4 {
                return Err(
                    DeviceError::Unsupported("uart control register takes word access only".to_owned()),
                );
            }
            Ok(())
        } else {
            Err(DeviceError::Access("uart has no register at this offset".to_owned()))
        }
    }

    fn name(&self) -> (r: &str)
        ensures
            r@ == self.spec_name(),
    {
        self.name.as_str()
    }
}

/// A timer whose counter registers at 0x00, 0x04 and 0x08 read, for any
/// access width in {1, 2, 4, 8}, as the low bytes of the wall-clock
/// microseconds since the epoch, little-endian. Offset 0x0C is a reserved
/// control register that reads as 0. All writes are rejected.
pub struct Timer {
    name: String,
}

impl Timer {
    /// The device name.
    pub closed spec fn spec_name(&self) -> Seq<char> {
        self.name@
    }

    /// Create a timer.
    pub fn new(name: String) -> (r: Timer)
        ensures
            r.spec_name() == name@,
    {
        Timer { name }
    }
}

impl MmioDevice for Timer {
    fn read(&mut self, offset: u64, size: usize) -> (r: Result<Vec<u8>, DeviceError>)
        ensures
            *final(self) == *old(self),
            (offset == 0x00 || offset == 0x04 || offset == 0x08) && (size == 1 || size == 2 || size
                == 4 || size == 8) ==> (r matches Ok(v) && v@.len() == size),
            (offset == 0x00 || offset == 0x04 || offset == 0x08) && !(size == 1 || size == 2 || size
                == 4 || size == 8) ==> (r matches Err(e) && e is Unsupported),
            offset == 0x0C && size == 1 ==> (r matches Ok(v) && v@ =~= seq![0u8]),
            offset == 0x0C && size == 4 ==> (r matches Ok(v) && v@ =~= seq![0u8, 0u8, 0u8, 0u8]),
            offset == 0x0C && !(size == 1 || size == 4) ==> (r matches Err(e) && e is Unsupported),
            !(offset == 0x00 || offset == 0x04 || offset == 0x08 || offset == 0x0C) ==> (r matches Err(e)
                && e is Access),
    {
        if offset == 0x00 || offset == 0x04 || offset == 0x08 {
            if size == 1 || size == 2 || size == 4 || size == 8 {
                let t = current_time_us();
                Ok(le_bytes_prefix(t, size))
            } else {
                Err(
                    DeviceError::Unsupported("timer counter takes 1, 2, 4 or 8 byte reads".to_owned()),
                )
            }
        } else if offset == 0x0C {
            if size == 1 {
                let mut v: Vec<u8> = Vec::new();
                v.push(0u8);
                Ok(v)
            } else if size == 4 {
                let mut v: Vec<u8> = Vec::new();
                v.push(0u8);
                v.push(0u8);
                v.push(0u8);
                v.push(0u8);
                Ok(v)
            } else {
                Err(
                    DeviceError::Unsupported("timer control register takes 1 or 4 byte access".to_owned()),
                )
            }
        } else {
            Err(DeviceError::Access("timer has no register at this offset".to_owned()))
        }
    }

    fn write(&mut self, offset: u64, data: &[u8]) -> (r: Result<(), DeviceError>)
        ensures
            *final(self) == *old(self),
            (offset == 0x00 || offset == 0x04 || offset == 0x08 || offset == 0x0C) ==> (r matches Err(
                e,
            ) && e is Unsupported),
            !(offset == 0x00 || offset == 0x04 || offset == 0x08 || offset == 0x0C) ==> (r matches Err(
                e,
            ) && e is Access),
    {
        if offset == 0x00 || offset == 0x04 || offset == 0x08 || offset == 0x0C {
            Err(DeviceError::Unsupported("timer registers are read-only".to_owned()))
        } else {
            Err(DeviceError::Access("timer has no register at this offset".to_owned()))
        }
    }

    fn name(&self) -> (r: &str)
        ensures
            r@ == self.spec_name(),
    {
        self.name.as_str()
    }
}

} // verus!
