//! Simulator control device: the TOHOST register a program writes to end the run.
use crate::bus_device::{BusDevice, BusDeviceError, SystemContext};
use vstd::prelude::*;

verus! {

/// Simulator control device.
///
/// A single write-only register (TOHOST, offset 0) records the value the
/// program writes to signal completion. The value is one-shot: it stays
/// pending until it is acknowledged or cleared.
pub struct SimControl {
    tohost_value: Option<u32>,
}

impl View for SimControl {
    type V = Option<u32>;

    /// The pending TOHOST value, if any.
    closed spec fn view(&self) -> Option<u32> {
        self.tohost_value
    }
}

/// Result of reading the control device's word register at `offset`.
pub open spec fn sim_control_read_result(offset: u32) -> Result<u32, BusDeviceError> {
    if offset == 0 {
        Err(BusDeviceError::ReadFromWriteOnly { offset })
    } else {
        Err(BusDeviceError::InvalidAddress { offset })
    }
}

impl SimControl {
    /// Create a device with no termination pending.
    pub fn new() -> (s: Self)
        ensures
            s@ == None::<u32>,
    {
        SimControl { tohost_value: None }
    }

    /// Whether a TOHOST write occurred that has not been acknowledged.
    pub fn is_termination_pending(&self) -> (r: bool)
        ensures
            r == self@.is_some(),
    {
        self.tohost_value.is_some()
    }

    /// Take the pending TOHOST value, leaving nothing pending.
    pub fn acknowledge_termination(&mut self) -> (r: Option<u32>)
        ensures
            r == old(self)@,
            final(self)@ == None::<u32>,
    {
        self.tohost_value.take()
    }

    /// The pending TOHOST value, without consuming it.
    pub fn termination_requested(&self) -> (r: Option<u32>)
        ensures
            r == self@,
    {
        self.tohost_value
    }

    /// Drop any pending TOHOST value.
    pub fn clear_termination(&mut self)
        ensures
            final(self)@ == None::<u32>,
    {
        self.tohost_value = None;
    }
}

impl Default for SimControl {
    fn default() -> (s: Self)
        ensures
            s@ == None::<u32>,
    {
        Self::new()
    }
}

impl BusDevice for SimControl {
    fn read_word(&mut self, ctx: &mut SystemContext, offset: u32) -> (r: Result<
        u32,
        BusDeviceError,
    >)
        ensures
            r == sim_control_read_result(offset),
            final(self)@ == old(self)@,
            final(ctx).mem() == old(ctx).mem(),
    {
        if offset == 0 {
            Err(BusDeviceError::ReadFromWriteOnly { offset })
        } else {
            Err(BusDeviceError::InvalidAddress { offset })
        }
    }

    fn write_word(&mut self, ctx: &mut SystemContext, offset: u32, value: u32) -> (r: Result<
        (),
        BusDeviceError,
    >)
        ensures
            offset == 0 ==> r is Ok && final(self)@ == Some(value),
            offset != 0 ==> r == Err::<(), BusDeviceError>(BusDeviceError::InvalidAddress { offset })
                && final(self)@ == old(self)@,
            final(ctx).mem() == old(ctx).mem(),
    {
        if offset == 0 {
            self.tohost_value = Some(value);
            Ok(())
        } else {
            Err(BusDeviceError::InvalidAddress { offset })
        }
    }

    fn read_halfword(&mut self, ctx: &mut SystemContext, offset: u32) -> (r: Result<
        u16,
        BusDeviceError,
    >)
        ensures
            r == Err::<u16, BusDeviceError>(BusDeviceError::UnsupportedSize { offset, size: 2 }),
            final(self)@ == old(self)@,
            final(ctx).mem() == old(ctx).mem(),
    {
        Err(BusDeviceError::UnsupportedSize { offset, size: 2 })
    }

    fn write_halfword(&mut self, ctx: &mut SystemContext, offset: u32, value: u16) -> (r: Result<
        (),
        BusDeviceError,
    >)
        ensures
            r == Err::<(), BusDeviceError>(BusDeviceError::UnsupportedSize { offset, size: 2 }),
            final(self)@ == old(self)@,
            final(ctx).mem() == old(ctx).mem(),
    {
        Err(BusDeviceError::UnsupportedSize { offset, size: 2 })
    }

    fn read_byte(&mut self, ctx: &mut SystemContext, offset: u32) -> (r: Result<u8, BusDeviceError>)
        ensures
            r == Err::<u8, BusDeviceError>(BusDeviceError::UnsupportedSize { offset, size: 1 }),
            final(self)@ == old(self)@,
            final(ctx).mem() == old(ctx).mem(),
    {
        Err(BusDeviceError::UnsupportedSize { offset, size: 1 })
    }

    fn write_byte(&mut self, ctx: &mut SystemContext, offset: u32, value: u8) -> (r: Result<
        (),
        BusDeviceError,
    >)
        ensures
            r == Err::<(), BusDeviceError>(BusDeviceError::UnsupportedSize { offset, size: 1 }),
            final(self)@ == old(self)@,
            final(ctx).mem() == old(ctx).mem(),
    {
        Err(BusDeviceError::UnsupportedSize { offset, size: 1 })
    }

    open spec fn spec_size(&self) -> u32 {
        4
    }

    fn size(&self) -> (r: u32)
        ensures
            r == 4,
    {
        4
    }

    fn name(&self) -> (r: &str)
        ensures
            r@ == "SimControl"@,
    {
        "SimControl"
    }

    fn reset(&mut self, ctx: &mut SystemContext)
        ensures
            final(self)@ == None::<u32>,
            final(ctx).mem() == old(ctx).mem(),
    {
        self.tohost_value = None;
    }

    fn clock_cycle(&mut self, ctx: &mut SystemContext)
        ensures
            final(self)@ == old(self)@,
            final(ctx).mem() == old(ctx).mem(),
    {
    }
}

} // verus!
