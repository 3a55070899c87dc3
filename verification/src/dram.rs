//! DRAM device: forwards accesses to system memory at `DRAM_BASE + offset`.
use crate::bus_device::{BusDevice, BusDeviceError, SystemContext};
use crate::memory::{byte_at, half_at, store_half, store_word, word_at};
use crate::memory_map::{spec_valid_dram_range, DRAM_BASE, DRAM_SIZE};
use vstd::prelude::*;

verus! {

/// DRAM bus device. It holds no data itself: every access is forwarded to
/// system memory through the context, at the absolute address
/// `base + offset` (wrapping).
pub struct Dram {
    base_addr: u32,
}

impl View for Dram {
    type V = u32;

    /// The absolute address that offset zero maps to.
    closed spec fn view(&self) -> u32 {
        self.base_addr
    }
}

/// Value a word read of DRAM at absolute address `addr` yields.
pub open spec fn dram_word(m: Map<u32, u8>, addr: u32) -> u32 {
    if spec_valid_dram_range(addr, 4) { word_at(m, addr) } else { 0 }
}

/// Value a halfword read of DRAM at absolute address `addr` yields.
pub open spec fn dram_half(m: Map<u32, u8>, addr: u32) -> u16 {
    if spec_valid_dram_range(addr, 2) { half_at(m, addr) } else { 0 }
}

/// Value a byte read of DRAM at absolute address `addr` yields.
pub open spec fn dram_byte(m: Map<u32, u8>, addr: u32) -> u8 {
    if spec_valid_dram_range(addr, 1) { byte_at(m, addr) } else { 0 }
}

/// Memory after a word write of DRAM at absolute address `addr`.
pub open spec fn dram_store_word(m: Map<u32, u8>, addr: u32, v: u32) -> Map<u32, u8> {
    if spec_valid_dram_range(addr, 4) { store_word(m, addr, v) } else { m }
}

/// Memory after a halfword write of DRAM at absolute address `addr`.
pub open spec fn dram_store_half(m: Map<u32, u8>, addr: u32, v: u16) -> Map<u32, u8> {
    if spec_valid_dram_range(addr, 2) { store_half(m, addr, v) } else { m }
}

/// Memory after a byte write of DRAM at absolute address `addr`.
pub open spec fn dram_store_byte(m: Map<u32, u8>, addr: u32, v: u8) -> Map<u32, u8> {
    if spec_valid_dram_range(addr, 1) { m.insert(addr, v) } else { m }
}

impl Dram {
    /// Create the DRAM device mapped at `DRAM_BASE`.
    pub fn new() -> (d: Self)
        ensures
            d@ == DRAM_BASE,
    {
        Dram { base_addr: DRAM_BASE }
    }
}

impl Default for Dram {
    fn default() -> (d: Self)
        ensures
            d@ == DRAM_BASE,
    {
        Self::new()
    }
}

impl BusDevice for Dram {
    fn read_word(&mut self, ctx: &mut SystemContext, offset: u32) -> (r: Result<
        u32,
        BusDeviceError,
    >)
        ensures
            r == Ok::<u32, BusDeviceError>(dram_word(old(ctx).mem(), old(self)@.wrapping_add(offset))),
            final(ctx).mem() == old(ctx).mem(),
            final(self)@ == old(self)@,
    {
        let addr = self.base_addr.wrapping_add(offset);
        Ok(ctx.read_word(addr))
    }

    fn write_word(&mut self, ctx: &mut SystemContext, offset: u32, value: u32) -> (r: Result<
        (),
        BusDeviceError,
    >)
        ensures
            r is Ok,
            final(ctx).mem() == dram_store_word(old(ctx).mem(), old(self)@.wrapping_add(offset), value),
            final(self)@ == old(self)@,
    {
        let addr = self.base_addr.wrapping_add(offset);
        ctx.write_word(addr, value);
        Ok(())
    }

    fn read_halfword(&mut self, ctx: &mut SystemContext, offset: u32) -> (r: Result<
        u16,
        BusDeviceError,
    >)
        ensures
            r == Ok::<u16, BusDeviceError>(dram_half(old(ctx).mem(), old(self)@.wrapping_add(offset))),
            final(ctx).mem() == old(ctx).mem(),
            final(self)@ == old(self)@,
    {
        let addr = self.base_addr.wrapping_add(offset);
        Ok(ctx.read_halfword(addr))
    }

    fn write_halfword(&mut self, ctx: &mut SystemContext, offset: u32, value: u16) -> (r: Result<
        (),
        BusDeviceError,
    >)
        ensures
            r is Ok,
            final(ctx).mem() == dram_store_half(old(ctx).mem(), old(self)@.wrapping_add(offset), value),
            final(self)@ == old(self)@,
    {
        let addr = self.base_addr.wrapping_add(offset);
        ctx.write_halfword(addr, value);
        Ok(())
    }

    fn read_byte(&mut self, ctx: &mut SystemContext, offset: u32) -> (r: Result<
        u8,
        BusDeviceError,
    >)
        ensures
            r == Ok::<u8, BusDeviceError>(dram_byte(old(ctx).mem(), old(self)@.wrapping_add(offset))),
            final(ctx).mem() == old(ctx).mem(),
            final(self)@ == old(self)@,
    {
        let addr = self.base_addr.wrapping_add(offset);
        Ok(ctx.read_byte(addr))
    }

    fn write_byte(&mut self, ctx: &mut SystemContext, offset: u32, value: u8) -> (r: Result<
        (),
        BusDeviceError,
    >)
        ensures
            r is Ok,
            final(ctx).mem() == dram_store_byte(old(ctx).mem(), old(self)@.wrapping_add(offset), value),
            final(self)@ == old(self)@,
    {
        let addr = self.base_addr.wrapping_add(offset);
        ctx.write_byte(addr, value);
        Ok(())
    }

    open spec fn spec_size(&self) -> u32 {
        DRAM_SIZE
    }

    fn size(&self) -> (r: u32)
        ensures
            r == DRAM_SIZE,
    {
        DRAM_SIZE
    }

    fn name(&self) -> (r: &str)
        ensures
            r@ == "DRAM"@,
    {
        "DRAM"
    }

    fn reset(&mut self, ctx: &mut SystemContext)
        ensures
            final(self)@ == old(self)@,
            final(ctx).mem() == old(ctx).mem(),
    {
    }

    fn clock_cycle(&mut self, ctx: &mut SystemContext)
        ensures
            final(self)@ == old(self)@,
            final(ctx).mem() == old(ctx).mem(),
    {
    }
}

} // verus!
