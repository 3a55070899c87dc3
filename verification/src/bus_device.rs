//! The device interface of the system bus and the memory context handed to devices.
use crate::memory::{byte_at, half_at, store_half, store_word, word_at, Memory};
use crate::memory_map::{is_valid_dram_range, spec_valid_dram_range};
use vstd::prelude::*;

verus! {

/// Access to system memory handed to bus devices.
///
/// Every access is checked against the DRAM window: reads outside it yield
/// zero and writes outside it are discarded.
pub struct SystemContext<'a> {
    pub memory: &'a mut Memory,
    pub elapsed_time_us: u64,
}

impl<'a> SystemContext<'a> {
    /// Current contents of the memory this context refers to.
    pub open spec fn mem(&self) -> Map<u32, u8> {
        self.memory@
    }

    /// Elapsed host time, in microseconds, recorded in this context.
    pub open spec fn elapsed(&self) -> u64 {
        self.elapsed_time_us
    }

    /// Create a context over `memory` with zero elapsed time.
    pub fn new(memory: &'a mut Memory) -> (ctx: Self)
        ensures
            ctx.mem() == old(memory)@,
            ctx.elapsed() == 0,
            *final(memory) == *final(ctx.memory),
    {
        SystemContext { memory, elapsed_time_us: 0 }
    }

    /// Create a context over `memory` carrying the given elapsed time.
    pub fn with_elapsed_time(memory: &'a mut Memory, elapsed_time_us: u64) -> (ctx: Self)
        ensures
            ctx.mem() == old(memory)@,
            ctx.elapsed() == elapsed_time_us,
            *final(memory) == *final(ctx.memory),
    {
        SystemContext { memory, elapsed_time_us }
    }

    /// Elapsed host time in microseconds.
    pub fn elapsed_time_us(&self) -> (r: u64)
        ensures
            r == self.elapsed(),
    {
        self.elapsed_time_us
    }

    /// Read a byte at an absolute address; zero outside DRAM.
    pub fn read_byte(&self, addr: u32) -> (r: u8)
        ensures
            r == (if spec_valid_dram_range(addr, 1) { byte_at(self.mem(), addr) } else { 0 }),
    {
        if !is_valid_dram_range(addr, 1) {
            return 0;
        }
        self.memory.read_byte(addr)
    }

    /// Read a little-endian halfword at an absolute address; zero unless
    /// both bytes are in DRAM.
    pub fn read_halfword(&self, addr: u32) -> (r: u16)
        ensures
            r == (if spec_valid_dram_range(addr, 2) { half_at(self.mem(), addr) } else { 0 }),
    {
        if !is_valid_dram_range(addr, 2) {
            return 0;
        }
        self.memory.read_halfword(addr)
    }

    /// Read a little-endian word at an absolute address; zero unless all
    /// four bytes are in DRAM.
    pub fn read_word(&self, addr: u32) -> (r: u32)
        ensures
            r == (if spec_valid_dram_range(addr, 4) { word_at(self.mem(), addr) } else { 0 }),
    {
        if !is_valid_dram_range(addr, 4) {
            return 0;
        }
        self.memory.read_word(addr)
    }

    /// Write a byte at an absolute address; discarded outside DRAM.
    pub fn write_byte(&mut self, addr: u32, data: u8)
        ensures
            final(self).mem() == (if spec_valid_dram_range(addr, 1) {
                old(self).mem().insert(addr, data)
            } else {
                old(self).mem()
            }),
            final(self).elapsed() == old(self).elapsed(),
            *final(final(self).memory) == *final(old(self).memory),
    {
        if !is_valid_dram_range(addr, 1) {
            return;
        }
        self.memory.write_byte(addr, data);
    }

    /// Write a little-endian halfword at an absolute address; discarded
    /// unless both bytes are in DRAM.
    pub fn write_halfword(&mut self, addr: u32, data: u16)
        ensures
            final(self).mem() == (if spec_valid_dram_range(addr, 2) {
                store_half(old(self).mem(), addr, data)
            } else {
                old(self).mem()
            }),
            final(self).elapsed() == old(self).elapsed(),
            *final(final(self).memory) == *final(old(self).memory),
    {
        if !is_valid_dram_range(addr, 2) {
            return;
        }
        self.memory.write_halfword(addr, data);
    }

    /// Write a little-endian word at an absolute address; discarded unless
    /// all four bytes are in DRAM.
    pub fn write_word(&mut self, addr: u32, data: u32)
        ensures
            final(self).mem() == (if spec_valid_dram_range(addr, 4) {
                store_word(old(self).mem(), addr, data)
            } else {
                old(self).mem()
            }),
            final(self).elapsed() == old(self).elapsed(),
            *final(final(self).memory) == *final(old(self).memory),
    {
        if !is_valid_dram_range(addr, 4) {
            return;
        }
        self.memory.write_word(addr, data);
    }
}

/// Error returned by a device for an access it does not accept.
#[derive(Debug, Clone, PartialEq, Eq)]
pub enum BusDeviceError {
    /// Attempted to write to a read-only register.
    WriteToReadOnly { offset: u32 },
    /// Attempted to read from a write-only register.
    ReadFromWriteOnly { offset: u32 },
    /// Offset does not name a register of the device.
    InvalidAddress { offset: u32 },
    /// The access size is not supported at this offset.
    UnsupportedSize { offset: u32, size: u8 },
    /// Other device-specific error.
    Other(String),
}

/// Error returned when a device cannot be placed in the memory map.
#[derive(Debug, Clone, PartialEq, Eq)]
pub enum RegistrationError {
    /// The new range `[new_base, new_end)` overlaps an existing device.
    AddressOverlap {
        new_base: u32,
        new_end: u32,
        existing_base: u32,
        existing_end: u32,
        existing_name: String,
    },
    /// Device size is not a multiple of four.
    InvalidAlignment { size: u32 },
    /// Device base address is not a multiple of four.
    InvalidBaseAlignment { base_addr: u32 },
    /// Device size is zero.
    ZeroSize,
}

/// A device that can be mapped on the system bus.
///
/// Every method leaves the context referring to the same memory it was
/// handed.
///
/// Every access names an offset relative to the device's base address. The
/// context gives the device access to system memory. Accesses of a size the
/// device does not handle answer `UnsupportedSize`, which is what the
/// provided halfword and byte methods do.
pub trait BusDevice {
    /// Read a 32-bit word at `offset`.
    fn read_word(&mut self, ctx: &mut SystemContext, offset: u32) -> (r: Result<u32, BusDeviceError>)
        ensures
            *final(final(ctx).memory) == *final(old(ctx).memory),
    ;

    /// Write a 32-bit word at `offset`.
    fn write_word(&mut self, ctx: &mut SystemContext, offset: u32, value: u32) -> (r: Result<
        (),
        BusDeviceError,
    >)
        ensures
            *final(final(ctx).memory) == *final(old(ctx).memory),
    ;

    /// Read a 16-bit halfword at `offset`; unsupported unless overridden.
    fn read_halfword(&mut self, ctx: &mut SystemContext, offset: u32) -> (r: Result<
        u16,
        BusDeviceError,
    >)
        ensures
            *final(final(ctx).memory) == *final(old(ctx).memory),
        default_ensures
            r == Err::<u16, BusDeviceError>(BusDeviceError::UnsupportedSize { offset, size: 2 }),
            final(ctx).mem() == old(ctx).mem(),
    {
        Err(BusDeviceError::UnsupportedSize { offset, size: 2 })
    }

    /// Write a 16-bit halfword at `offset`; unsupported unless overridden.
    fn write_halfword(&mut self, ctx: &mut SystemContext, offset: u32, value: u16) -> (r: Result<
        (),
        BusDeviceError,
    >)
        ensures
            *final(final(ctx).memory) == *final(old(ctx).memory),
        default_ensures
            r == Err::<(), BusDeviceError>(BusDeviceError::UnsupportedSize { offset, size: 2 }),
            final(ctx).mem() == old(ctx).mem(),
    {
        Err(BusDeviceError::UnsupportedSize { offset, size: 2 })
    }

    /// Read a byte at `offset`; unsupported unless overridden.
    fn read_byte(&mut self, ctx: &mut SystemContext, offset: u32) -> (r: Result<
        u8,
        BusDeviceError,
    >)
        ensures
            *final(final(ctx).memory) == *final(old(ctx).memory),
        default_ensures
            r == Err::<u8, BusDeviceError>(BusDeviceError::UnsupportedSize { offset, size: 1 }),
            final(ctx).mem() == old(ctx).mem(),
    {
        Err(BusDeviceError::UnsupportedSize { offset, size: 1 })
    }

    /// Write a byte at `offset`; unsupported unless overridden.
    fn write_byte(&mut self, ctx: &mut SystemContext, offset: u32, value: u8) -> (r: Result<
        (),
        BusDeviceError,
    >)
        ensures
            *final(final(ctx).memory) == *final(old(ctx).memory),
        default_ensures
            r == Err::<(), BusDeviceError>(BusDeviceError::UnsupportedSize { offset, size: 1 }),
            final(ctx).mem() == old(ctx).mem(),
    {
        Err(BusDeviceError::UnsupportedSize { offset, size: 1 })
    }

    /// Size of the device's address window in bytes.
    spec fn spec_size(&self) -> u32;

    /// Size of the device's address window in bytes (a multiple of four).
    fn size(&self) -> (r: u32)
        ensures
            r == self.spec_size(),
    ;

    /// Human-readable device name; "Unknown Device" unless overridden.
    fn name(&self) -> (r: &str)
        default_ensures
            r@ == "Unknown Device"@,
    {
        "Unknown Device"
    }

    /// Return the device to its initial state; does nothing unless overridden.
    fn reset(&mut self, ctx: &mut SystemContext)
        ensures
            *final(final(ctx).memory) == *final(old(ctx).memory),
        default_ensures
            final(ctx).mem() == old(ctx).mem(),
    {
    }

    /// Advance the device by one clock cycle; does nothing unless overridden.
    fn clock_cycle(&mut self, ctx: &mut SystemContext)
        ensures
            *final(final(ctx).memory) == *final(old(ctx).memory),
        default_ensures
            final(ctx).mem() == old(ctx).mem(),
    {
    }
}

} // verus!
