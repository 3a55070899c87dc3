//! System memory map: address constants shared by the buses and devices,
//! and the range predicates used for validation.
use vstd::prelude::*;

verus! {

/// First address of DRAM.
pub const DRAM_BASE: u32 = 0x8000_0000;

/// Last address of DRAM (inclusive): DRAM spans the whole upper half of
/// the 32-bit address space.
pub const DRAM_END: u32 = 0xFFFF_FFFF;

/// Size of the DRAM window in bytes.
pub const DRAM_SIZE: u32 = 0x8000_0000;

/// Base address of the simulator control device (TOHOST register).
pub const SIM_CONTROL_BASE: u32 = 0x7000_0000;

/// First address of the peripheral window that the RTL model serves itself.
pub const RTL_PERIPH_BASE: u32 = 0x1000_0000;

/// End (exclusive) of the peripheral window that the RTL model serves itself.
pub const RTL_PERIPH_LIMIT: u32 = 0x6000_0000;

/// `[addr, addr + size)` is a non-empty range lying entirely inside DRAM.
pub open spec fn spec_valid_dram_range(addr: u32, size: u32) -> bool {
    &&& size > 0
    &&& DRAM_BASE <= addr
    &&& addr + size - 1 <= DRAM_END
}

/// Checks that the `size` bytes starting at `addr` are all DRAM addresses.
pub fn is_valid_dram_range(addr: u32, size: u32) -> (r: bool)
    ensures
        r == spec_valid_dram_range(addr, size),
{
    if size == 0 || addr < DRAM_BASE {
        false
    } else {
        // DRAM_END is u32::MAX, so the range fits exactly when the last byte does not wrap.
        addr <= DRAM_END - (size - 1)
    }
}

/// The half-open ranges `[a_start, a_end)` and `[b_start, b_end)` share an address.
pub open spec fn spec_ranges_overlap(a_start: u32, a_end: u32, b_start: u32, b_end: u32) -> bool {
    a_start < b_end && b_start < a_end
}

/// Checks whether two half-open address ranges overlap.
pub fn ranges_overlap(a_start: u32, a_end: u32, b_start: u32, b_end: u32) -> (r: bool)
    ensures
        r == spec_ranges_overlap(a_start, a_end, b_start, b_end),
{
    a_start < b_end && b_start < a_end
}

/// For non-empty ranges, overlap means exactly that
/// some address lies in both ranges.
pub proof fn lemma_overlap_iff_shared_address(a_start: u32, a_end: u32, b_start: u32, b_end: u32)
    requires
        a_start < a_end,
        b_start < b_end,
    ensures
        spec_ranges_overlap(a_start, a_end, b_start, b_end) <==> exists|x: int|
            #![trigger in_range(x, a_start, a_end)]
            in_range(x, a_start, a_end) && in_range(x, b_start, b_end),
{
    if spec_ranges_overlap(a_start, a_end, b_start, b_end) {
        let x: int = if a_start < b_start { b_start as int } else { a_start as int };
        assert(in_range(x, a_start, a_end) && in_range(x, b_start, b_end));
    }
}

/// `x` lies in the half-open range `[lo, hi)`.
pub open spec fn in_range(x: int, lo: u32, hi: u32) -> bool {
    lo <= x < hi
}

/// Address lies in the peripheral window served by the RTL model.
pub open spec fn spec_is_rtl_peripheral(addr: u32) -> bool {
    RTL_PERIPH_BASE <= addr < RTL_PERIPH_LIMIT
}

/// Address `k` bytes past `addr` (meant for offsets that stay in range).
pub open spec fn addr_offset(addr: u32, k: int) -> u32 {
    (addr + k) as u32
}

} // verus!
