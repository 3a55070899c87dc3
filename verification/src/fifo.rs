//! FIFO peripheral for byte-wise UART-style communication between the
//! simulated CPU and the host.
use crate::bus_device::{BusDevice, BusDeviceError, SystemContext};
use std::collections::VecDeque;
use vstd::string::StringSliceAdditionalSpecFns;
use vstd::prelude::*;

verus! {

/// Queue of bytes sent from the host to the CPU.
pub struct FifoDataSource {
    host_to_cpu: VecDeque<u8>,
}

impl View for FifoDataSource {
    type V = Seq<u8>;

    /// Pending bytes, oldest first.
    closed spec fn view(&self) -> Seq<u8> {
        self.host_to_cpu@
    }
}

impl FifoDataSource {
    /// Create an empty queue.
    pub fn new() -> (s: Self)
        ensures
            s@ == Seq::<u8>::empty(),
    {
        FifoDataSource { host_to_cpu: VecDeque::new() }
    }

    /// Append a byte for the CPU to read later.
    pub fn write_byte(&mut self, byte: u8)
        ensures
            final(self)@ == old(self)@.push(byte),
    {
        self.host_to_cpu.push_back(byte);
    }

    /// Remove and return the oldest byte, if any.
    pub fn read_byte(&mut self) -> (r: Option<u8>)
        ensures
            old(self)@.len() == 0 ==> r is None && final(self)@ == old(self)@,
            old(self)@.len() > 0 ==> r == Some(old(self)@[0]) && final(self)@ == old(self)@.drop_first(),
    {
        let r = self.host_to_cpu.pop_front();
        proof {
            if old(self)@.len() > 0 {
                assert(self@ =~= old(self)@.drop_first());
            }
        }
        r
    }

    /// Drop all pending bytes.
    pub fn clear(&mut self)
        ensures
            final(self)@ == Seq::<u8>::empty(),
    {
        self.host_to_cpu.clear();
    }

    /// Whether no byte is pending.
    pub fn is_empty(&self) -> (r: bool)
        ensures
            r == (self@.len() == 0),
    {
        self.host_to_cpu.len() == 0
    }

    /// Number of pending bytes.
    pub fn len(&self) -> (r: usize)
        ensures
            r == self@.len(),
    {
        self.host_to_cpu.len()
    }
}

impl Default for FifoDataSource {
    fn default() -> (s: Self)
        ensures
            s@ == Seq::<u8>::empty(),
    {
        Self::new()
    }
}

/// Bytes a string is sent to the CPU as: its UTF-8 bytes, followed by a
/// zero terminator when the length is a multiple of four.
pub open spec fn spec_string_rx_bytes(bytes: Seq<u8>) -> Seq<u8> {
    if bytes.len() % 4 == 0 {
        bytes.push(0u8)
    } else {
        bytes
    }
}

/// Push a UTF-8 string into the host-to-CPU queue as individual bytes,
/// adding a zero terminator if the length is a multiple of four.
pub fn push_string_to_fifo_rx(fifo_source: &mut FifoDataSource, s: &str)
    ensures
        final(fifo_source)@ == old(fifo_source)@ + spec_string_rx_bytes(s.spec_bytes()),
{
    let bytes = s.as_bytes();
    let mut i: usize = 0;
    while i < bytes.len()
        invariant
            i <= bytes@.len(),
            bytes@ == s.spec_bytes(),
            fifo_source@ == old(fifo_source)@ + bytes@.subrange(0, i as int),
        decreases bytes.len() - i,
    {
        fifo_source.write_byte(bytes[i]);
        i = i + 1;
        assert(fifo_source@ =~= old(fifo_source)@ + bytes@.subrange(0, i as int));
    }
    assert(bytes@.subrange(0, bytes@.len() as int) =~= bytes@);
    if bytes.len() % 4 == 0 {
        fifo_source.write_byte(0);
        assert(fifo_source@ =~= old(fifo_source)@ + bytes@.push(0u8));
    }
}

/// FIFO peripheral.
///
/// Registers, within an 8-byte window:
/// - 0x00 DATA, byte access only: a read pops the oldest host-to-CPU byte
///   (zero when empty), a write queues a CPU-to-host byte
/// - 0x04 STATUS, word read only: bit 0 RX_VALID (host-to-CPU data
///   pending), bit 1 TX_READY (always set)
pub struct Fifo {
    /// Bytes sent from the CPU to the host, oldest first.
    pub tx: VecDeque<u8>,
    /// Bytes sent from the host to the CPU, oldest first.
    pub rx: VecDeque<u8>,
}

/// Value of the STATUS register for a host-to-CPU queue `rx`.
pub open spec fn spec_fifo_status(rx: Seq<u8>) -> u32 {
    if rx.len() > 0 { 3 } else { 2 }
}

/// Result of a word read of register `offset`.
pub open spec fn spec_fifo_read_word(rx: Seq<u8>, offset: u32) -> Result<u32, BusDeviceError> {
    if offset == 0 {
        Err(BusDeviceError::UnsupportedSize { offset, size: 4 })
    } else if offset == 4 {
        Ok(spec_fifo_status(rx))
    } else {
        Err(BusDeviceError::InvalidAddress { offset })
    }
}

/// Result of a word write to register `offset` (no write changes state).
pub open spec fn spec_fifo_write_word(offset: u32) -> Result<(), BusDeviceError> {
    if offset == 0 {
        Err(BusDeviceError::UnsupportedSize { offset, size: 4 })
    } else if offset == 4 {
        Err(BusDeviceError::WriteToReadOnly { offset })
    } else {
        Err(BusDeviceError::InvalidAddress { offset })
    }
}

/// Oldest byte of a queue, or zero when it is empty.
pub open spec fn spec_front_or_zero(q: Seq<u8>) -> u8 {
    if q.len() > 0 { q[0] } else { 0 }
}

/// Queue after popping its oldest byte (unchanged when empty).
pub open spec fn spec_pop(q: Seq<u8>) -> Seq<u8> {
    if q.len() > 0 { q.drop_first() } else { q }
}

impl Fifo {
    /// Create a FIFO with both queues empty.
    pub fn new() -> (f: Self)
        ensures
            f.tx@ == Seq::<u8>::empty(),
            f.rx@ == Seq::<u8>::empty(),
    {
        Fifo { tx: VecDeque::new(), rx: VecDeque::new() }
    }

    /// Create a FIFO fed from `host_to_cpu`: its pending bytes are the
    /// first the CPU reads. Bytes the CPU writes to DATA are queued in `tx`,
    /// where the host collects them.
    pub fn new_with_callback(host_to_cpu: FifoDataSource) -> (f: Self)
        ensures
            f.tx@ == Seq::<u8>::empty(),
            f.rx@ == host_to_cpu@,
    {
        Fifo { tx: VecDeque::new(), rx: host_to_cpu.host_to_cpu }
    }

    /// STATUS register: bit 0 RX_VALID, bit 1 TX_READY (always 1).
    pub fn read_status(&self) -> (r: u32)
        ensures
            r == spec_fifo_status(self.rx@),
    {
        let rx_valid: u32 = if self.rx.len() == 0 { 0 } else { 1 };
        let tx_ready: u32 = 1;
        assert((1u32 << 1u32) | 0u32 == 2u32 && (1u32 << 1u32) | 1u32 == 3u32) by (bit_vector);
        (tx_ready << 1u32) | rx_valid
    }

    /// Pop the oldest host-to-CPU byte; zero when the queue is empty.
    fn read_data_byte(&mut self) -> (r: u8)
        ensures
            r == spec_front_or_zero(old(self).rx@),
            final(self).rx@ == spec_pop(old(self).rx@),
            final(self).tx@ == old(self).tx@,
    {
        let r = match self.rx.pop_front() {
            Some(v) => v,
            None => 0,
        };
        proof {
            if old(self).rx@.len() > 0 {
                assert(self.rx@ =~= old(self).rx@.drop_first());
            }
        }
        r
    }

    /// Word read of DATA: the oldest host-to-CPU byte, zero when empty.
    pub fn read_data(&mut self) -> (r: u32)
        ensures
            r == spec_front_or_zero(old(self).rx@) as u32,
            final(self).rx@ == spec_pop(old(self).rx@),
            final(self).tx@ == old(self).tx@,
    {
        self.read_data_byte() as u32
    }

    /// Word write of DATA: the low byte is queued for the host.
    pub fn write_data(&mut self, val: u32)
        ensures
            final(self).tx@ == old(self).tx@.push(val as u8),
            final(self).rx@ == old(self).rx@,
    {
        self.tx.push_back(val as u8);
    }
}

impl Default for Fifo {
    fn default() -> (f: Self)
        ensures
            f.tx@ == Seq::<u8>::empty(),
            f.rx@ == Seq::<u8>::empty(),
    {
        Self::new()
    }
}

impl BusDevice for Fifo {
    fn read_word(&mut self, ctx: &mut SystemContext, offset: u32) -> (r: Result<
        u32,
        BusDeviceError,
    >)
        ensures
            r == spec_fifo_read_word(old(self).rx@, offset),
            final(self).rx@ == old(self).rx@,
            final(self).tx@ == old(self).tx@,
            final(ctx).mem() == old(ctx).mem(),
    {
        match offset {
            0x00 => Err(BusDeviceError::UnsupportedSize { offset, size: 4 }),
            0x04 => Ok(self.read_status()),
            _ => Err(BusDeviceError::InvalidAddress { offset }),
        }
    }

    fn write_word(&mut self, ctx: &mut SystemContext, offset: u32, value: u32) -> (r: Result<
        (),
        BusDeviceError,
    >)
        ensures
            r == spec_fifo_write_word(offset),
            final(self).rx@ == old(self).rx@,
            final(self).tx@ == old(self).tx@,
            final(ctx).mem() == old(ctx).mem(),
    {
        match offset {
            0x00 => Err(BusDeviceError::UnsupportedSize { offset, size: 4 }),
            0x04 => Err(BusDeviceError::WriteToReadOnly { offset }),
            _ => Err(BusDeviceError::InvalidAddress { offset }),
        }
    }

    fn read_halfword(&mut self, ctx: &mut SystemContext, offset: u32) -> (r: Result<
        u16,
        BusDeviceError,
    >)
        ensures
            r == Err::<u16, BusDeviceError>(BusDeviceError::UnsupportedSize { offset, size: 2 }),
            final(self).rx@ == old(self).rx@,
            final(self).tx@ == old(self).tx@,
            final(ctx).mem() == old(ctx).mem(),
    {
        Err(BusDeviceError::UnsupportedSize { offset, size: 2 })
    }

    fn write_halfword(&mut self, ctx: &mut SystemContext, offset: u32, value: u16) -> (r: Result<
        (),
        BusDeviceError,
    >)
        ensures
            r == Err::<(), BusDeviceError>(BusDeviceError::UnsupportedSize { offset, size: 2 }),
            final(self).rx@ == old(self).rx@,
            final(self).tx@ == old(self).tx@,
            final(ctx).mem() == old(ctx).mem(),
    {
        Err(BusDeviceError::UnsupportedSize { offset, size: 2 })
    }

    fn read_byte(&mut self, ctx: &mut SystemContext, offset: u32) -> (r: Result<
        u8,
        BusDeviceError,
    >)
        ensures
            offset == 0 ==> r == Ok::<u8, BusDeviceError>(spec_front_or_zero(old(self).rx@))
                && final(self).rx@ == spec_pop(old(self).rx@),
            offset == 4 ==> r == Err::<u8, BusDeviceError>(BusDeviceError::UnsupportedSize { offset, size: 1 })
                && final(self).rx@ == old(self).rx@,
            offset != 0 && offset != 4 ==> r == Err::<u8, BusDeviceError>(BusDeviceError::InvalidAddress { offset })
                && final(self).rx@ == old(self).rx@,
            final(self).tx@ == old(self).tx@,
            final(ctx).mem() == old(ctx).mem(),
    {
        match offset {
            0x00 => Ok(self.read_data_byte()),
            0x04 => Err(BusDeviceError::UnsupportedSize { offset, size: 1 }),
            _ => Err(BusDeviceError::InvalidAddress { offset }),
        }
    }

    fn write_byte(&mut self, ctx: &mut SystemContext, offset: u32, value: u8) -> (r: Result<
        (),
        BusDeviceError,
    >)
        ensures
            offset == 0 ==> r is Ok && final(self).tx@ == old(self).tx@.push(value),
            offset == 4 ==> r == Err::<(), BusDeviceError>(BusDeviceError::UnsupportedSize { offset, size: 1 })
                && final(self).tx@ == old(self).tx@,
            offset != 0 && offset != 4 ==> r == Err::<(), BusDeviceError>(BusDeviceError::InvalidAddress { offset })
                && final(self).tx@ == old(self).tx@,
            final(self).rx@ == old(self).rx@,
            final(ctx).mem() == old(ctx).mem(),
    {
        match offset {
            0x00 => {
                self.tx.push_back(value);
                Ok(())
            },
            0x04 => Err(BusDeviceError::UnsupportedSize { offset, size: 1 }),
            _ => Err(BusDeviceError::InvalidAddress { offset }),
        }
    }

    open spec fn spec_size(&self) -> u32 {
        8
    }

    fn size(&self) -> (r: u32)
        ensures
            r == 8,
    {
        8
    }

    fn name(&self) -> (r: &str)
        ensures
            r@ == "FIFO"@,
    {
        "FIFO"
    }

    /// Pending host-to-CPU bytes are dropped; bytes already sent to the
    /// host are left for it to collect.
    fn reset(&mut self, ctx: &mut SystemContext)
        ensures
            final(self).rx@ == Seq::<u8>::empty(),
            final(self).tx@ == old(self).tx@,
            final(ctx).mem() == old(ctx).mem(),
    {
        self.rx.clear();
    }
}

} // verus!
