//! DMA controller: memory-to-memory copy, one byte per clock cycle.
use crate::bus_device::{BusDevice, BusDeviceError, SystemContext};
use crate::dram::{dram_byte, dram_store_byte};
use crate::memory::byte_at;
use crate::memory_map::{addr_offset, spec_valid_dram_range};
use vstd::prelude::*;

verus! {

/// Latched state of a transfer in progress.
///
/// The configuration registers are copied here on dispatch, so writing
/// them during a transfer only affects the next dispatch.
#[derive(Debug, Clone, Copy)]
pub struct ActiveTransfer {
    /// Bytes still to copy (never zero while the transfer is active).
    pub bytes_remaining: u32,
    /// Address the next byte is read from.
    pub current_src: u32,
    /// Address the next byte is written to.
    pub current_dst: u32,
}

/// Abstract state of the DMA controller.
pub struct DmaView {
    /// SRC_ADDR configuration register.
    pub src_addr: u32,
    /// DST_ADDR configuration register.
    pub dst_addr: u32,
    /// SIZE configuration register (bytes).
    pub size: u32,
    /// The transfer in progress, if any.
    pub active: Option<ActiveTransfer>,
}

/// Simple DMA controller for memory-to-memory transfers.
///
/// Register map (word access only):
/// - 0x00 SRC_ADDR (read/write)
/// - 0x04 DST_ADDR (read/write)
/// - 0x08 SIZE in bytes (read/write)
/// - 0x0C STATUS (read-only), bit 0 = BUSY
/// - 0x10 DISPATCH (write-only): any write starts a transfer
///
/// A dispatch while busy, or with SIZE zero, is ignored.
pub struct Dma {
    src_addr: u32,
    dst_addr: u32,
    size: u32,
    active_transfer: Option<ActiveTransfer>,
}

impl View for Dma {
    type V = DmaView;

    closed spec fn view(&self) -> DmaView {
        DmaView {
            src_addr: self.src_addr,
            dst_addr: self.dst_addr,
            size: self.size,
            active: self.active_transfer,
        }
    }
}

/// The state after a write to the DISPATCH register.
pub open spec fn dma_dispatch(s: DmaView) -> DmaView {
    if s.active is Some || s.size == 0 {
        s
    } else {
        DmaView {
            active: Some(
                ActiveTransfer { bytes_remaining: s.size, current_src: s.src_addr, current_dst: s.dst_addr },
            ),
            ..s
        }
    }
}

/// The controller state after one clock cycle.
pub open spec fn dma_step_state(s: DmaView) -> DmaView {
    match s.active {
        None => s,
        Some(t) => DmaView {
            active: if t.bytes_remaining <= 1 {
                None
            } else {
                Some(
                    ActiveTransfer {
                        bytes_remaining: (t.bytes_remaining - 1) as u32,
                        current_src: t.current_src.wrapping_add(1),
                        current_dst: t.current_dst.wrapping_add(1),
                    },
                )
            },
            ..s
        },
    }
}

/// The memory after one clock cycle: the next byte is copied, through the
/// DRAM-checked context, from the current source to the current destination.
pub open spec fn dma_step_mem(s: DmaView, m: Map<u32, u8>) -> Map<u32, u8> {
    match s.active {
        None => m,
        Some(t) => dram_store_byte(m, t.current_dst, dram_byte(m, t.current_src)),
    }
}

/// Value of the STATUS register.
pub open spec fn dma_status(s: DmaView) -> u32 {
    if s.active is Some { 1 } else { 0 }
}

/// Result of a word read of register `offset`.
pub open spec fn dma_read_result(s: DmaView, offset: u32) -> Result<u32, BusDeviceError> {
    if offset == 0x00 {
        Ok(s.src_addr)
    } else if offset == 0x04 {
        Ok(s.dst_addr)
    } else if offset == 0x08 {
        Ok(s.size)
    } else if offset == 0x0C {
        Ok(dma_status(s))
    } else if offset == 0x10 {
        Err(BusDeviceError::ReadFromWriteOnly { offset })
    } else {
        Err(BusDeviceError::InvalidAddress { offset })
    }
}

/// Result and new state of a word write of `value` to register `offset`.
pub open spec fn dma_write_result(s: DmaView, offset: u32, value: u32) -> (
    Result<(), BusDeviceError>,
    DmaView,
) {
    if offset == 0x00 {
        (Ok(()), DmaView { src_addr: value, ..s })
    } else if offset == 0x04 {
        (Ok(()), DmaView { dst_addr: value, ..s })
    } else if offset == 0x08 {
        (Ok(()), DmaView { size: value, ..s })
    } else if offset == 0x0C {
        (Err(BusDeviceError::WriteToReadOnly { offset }), s)
    } else if offset == 0x10 {
        (Ok(()), dma_dispatch(s))
    } else {
        (Err(BusDeviceError::InvalidAddress { offset }), s)
    }
}

/// Initial (and reset) state: all registers zero, idle.
pub open spec fn dma_idle() -> DmaView {
    DmaView { src_addr: 0, dst_addr: 0, size: 0, active: None }
}

/// Controller state and memory after `k` clock cycles.
pub open spec fn dma_run(s: DmaView, m: Map<u32, u8>, k: nat) -> (DmaView, Map<u32, u8>)
    decreases k,
{
    if k == 0 {
        (s, m)
    } else {
        let (s1, m1) = dma_run(s, m, (k - 1) as nat);
        (dma_step_state(s1), dma_step_mem(s1, m1))
    }
}

/// The first `j` cycles of a transfer of `n` bytes from `src` to `dst`.
proof fn lemma_dma_run_prefix(s: DmaView, m: Map<u32, u8>, n: u32, src: u32, dst: u32, j: nat)
    requires
        s.active == Some(ActiveTransfer { bytes_remaining: n, current_src: src, current_dst: dst }),
        spec_valid_dram_range(src, n),
        spec_valid_dram_range(dst, n),
        src + n <= dst || dst + n <= src,
        j <= n,
    ensures
        ({
            let (sj, mj) = dma_run(s, m, j);
            &&& sj.src_addr == s.src_addr && sj.dst_addr == s.dst_addr && sj.size == s.size
            &&& j < n ==> sj.active == Some(
                ActiveTransfer {
                    bytes_remaining: (n - j) as u32,
                    current_src: (src + j) as u32,
                    current_dst: (dst + j) as u32,
                },
            )
            &&& j == n ==> sj.active is None
            &&& forall|k: int| 0 <= k < j ==> #[trigger] byte_at(mj, addr_offset(dst, k)) == byte_at(m, addr_offset(src, k))
            &&& forall|a: u32| !(dst <= a < dst + j) ==> #[trigger] byte_at(mj, a) == byte_at(m, a)
        }),
    decreases j,
{
    if j > 0 {
        lemma_dma_run_prefix(s, m, n, src, dst, (j - 1) as nat);
        let (sp, mp) = dma_run(s, m, (j - 1) as nat);
        let a_src = (src + j - 1) as u32;
        let a_dst = (dst + j - 1) as u32;
        assert(spec_valid_dram_range(a_src, 1));
        assert(spec_valid_dram_range(a_dst, 1));
        assert(byte_at(mp, a_src) == byte_at(m, a_src));
        let (sj, mj) = dma_run(s, m, j);
        assert(mj == mp.insert(a_dst, byte_at(m, a_src)));
        assert forall|k: int| 0 <= k < j implies #[trigger] byte_at(mj, addr_offset(dst, k)) == byte_at(m, addr_offset(src, k)) by {
            if k < j - 1 {
                assert(byte_at(mp, addr_offset(dst, k)) == byte_at(m, addr_offset(src, k)));
            }
        }
        assert forall|a: u32| !(dst <= a < dst + j) implies #[trigger] byte_at(mj, a) == byte_at(m, a) by {
            assert(byte_at(mp, a) == byte_at(m, a));
        }
    }
}

/// A dispatched transfer of `n` bytes between two disjoint DRAM ranges
/// copies them: after `n` clock cycles the controller is idle again, the
/// configuration registers are as they were, byte `k` of the destination
/// holds byte `k` of the source, and no other byte of memory has changed.
pub proof fn lemma_dma_transfer_copies(s: DmaView, m: Map<u32, u8>, n: u32, src: u32, dst: u32)
    requires
        s.active == Some(ActiveTransfer { bytes_remaining: n, current_src: src, current_dst: dst }),
        spec_valid_dram_range(src, n),
        spec_valid_dram_range(dst, n),
        src + n <= dst || dst + n <= src,
    ensures
        ({
            let (s2, m2) = dma_run(s, m, n as nat);
            &&& s2 == DmaView { active: None, ..s }
            &&& forall|k: int| 0 <= k < n ==> #[trigger] byte_at(m2, addr_offset(dst, k)) == byte_at(m, addr_offset(src, k))
            &&& forall|a: u32| !(dst <= a < dst + n) ==> #[trigger] byte_at(m2, a) == byte_at(m, a)
        }),
{
    lemma_dma_run_prefix(s, m, n, src, dst, n as nat);
}

/// Dispatching with SIZE `n > 0` on an idle controller starts the transfer
/// of `n` bytes from SRC_ADDR to DST_ADDR.
pub proof fn lemma_dma_dispatch_starts_transfer(s: DmaView)
    requires
        s.active is None,
        s.size > 0,
    ensures
        dma_dispatch(s).active == Some(
            ActiveTransfer { bytes_remaining: s.size, current_src: s.src_addr, current_dst: s.dst_addr },
        ),
{
}

impl Dma {
    #[verifier::type_invariant]
    spec fn inv(&self) -> bool {
        match self.active_transfer {
            Some(t) => t.bytes_remaining > 0,
            None => true,
        }
    }

    /// Create an idle controller with all registers zero.
    pub fn new() -> (d: Self)
        ensures
            d@ == dma_idle(),
    {
        Dma { src_addr: 0, dst_addr: 0, size: 0, active_transfer: None }
    }

    /// Whether a transfer is in progress.
    fn is_busy(&self) -> (r: bool)
        ensures
            r == self@.active is Some,
    {
        self.active_transfer.is_some()
    }

    /// Latch the configuration registers into a new transfer, unless one is
    /// already running or the size is zero.
    pub fn start_transfer(&mut self)
        ensures
            final(self)@ == dma_dispatch(old(self)@),
    {
        if self.is_busy() {
            return;
        }
        if self.size == 0 {
            return;
        }
        self.active_transfer = Some(
            ActiveTransfer {
                bytes_remaining: self.size,
                current_src: self.src_addr,
                current_dst: self.dst_addr,
            },
        );
    }

    /// Copy one byte of the active transfer, if any.
    fn transfer_one_byte(&mut self, ctx: &mut SystemContext)
        ensures
            final(self)@ == dma_step_state(old(self)@),
            final(ctx).mem() == dma_step_mem(old(self)@, old(ctx).mem()),
            final(ctx).elapsed() == old(ctx).elapsed(),
            *final(final(ctx).memory) == *final(old(ctx).memory),
    {
        proof {
            use_type_invariant(&*self);
        }
        let t = match self.active_transfer {
            Some(t) => t,
            None => return,
        };
        let byte = ctx.read_byte(t.current_src);
        ctx.write_byte(t.current_dst, byte);
        if t.bytes_remaining == 1 {
            self.active_transfer = None;
        } else {
            self.active_transfer = Some(
                ActiveTransfer {
                    bytes_remaining: t.bytes_remaining - 1,
                    current_src: t.current_src.wrapping_add(1),
                    current_dst: t.current_dst.wrapping_add(1),
                },
            );
        }
    }
}

impl Default for Dma {
    fn default() -> (d: Self)
        ensures
            d@ == dma_idle(),
    {
        Self::new()
    }
}

impl BusDevice for Dma {
    fn read_word(&mut self, ctx: &mut SystemContext, offset: u32) -> (r: Result<
        u32,
        BusDeviceError,
    >)
        ensures
            r == dma_read_result(old(self)@, offset),
            final(self)@ == old(self)@,
            final(ctx).mem() == old(ctx).mem(),
    {
        match offset {
            0x00 => Ok(self.src_addr),
            0x04 => Ok(self.dst_addr),
            0x08 => Ok(self.size),
            0x0C => Ok(
                if self.is_busy() {
                    1
                } else {
                    0
                },
            ),
            0x10 => Err(BusDeviceError::ReadFromWriteOnly { offset }),
            _ => Err(BusDeviceError::InvalidAddress { offset }),
        }
    }

    fn write_word(&mut self, ctx: &mut SystemContext, offset: u32, value: u32) -> (r: Result<
        (),
        BusDeviceError,
    >)
        ensures
            (r, final(self)@) == dma_write_result(old(self)@, offset, value),
            final(ctx).mem() == old(ctx).mem(),
    {
        proof {
            use_type_invariant(&*self);
        }
        match offset {
            0x00 => {
                self.src_addr = value;
                Ok(())
            },
            0x04 => {
                self.dst_addr = value;
                Ok(())
            },
            0x08 => {
                self.size = value;
                Ok(())
            },
            0x0C => Err(BusDeviceError::WriteToReadOnly { offset }),
            0x10 => {
                self.start_transfer();
                Ok(())
            },
            _ => Err(BusDeviceError::InvalidAddress { offset }),
        }
    }

    open spec fn spec_size(&self) -> u32 {
        20
    }

    fn size(&self) -> (r: u32)
        ensures
            r == 20,
    {
        20
    }

    fn name(&self) -> (r: &str)
        ensures
            r@ == "DMA"@,
    {
        "DMA"
    }

    fn reset(&mut self, ctx: &mut SystemContext)
        ensures
            final(self)@ == dma_idle(),
            final(ctx).mem() == old(ctx).mem(),
    {
        self.active_transfer = None;
        self.src_addr = 0;
        self.dst_addr = 0;
        self.size = 0;
    }

    fn clock_cycle(&mut self, ctx: &mut SystemContext)
        ensures
            final(self)@ == dma_step_state(old(self)@),
            final(ctx).mem() == dma_step_mem(old(self)@, old(ctx).mem()),
    {
        self.transfer_one_byte(ctx);
    }
}

} // verus!
