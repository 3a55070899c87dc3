//! Address maps: ordered lists of non-overlapping device ranges, the
//! routing of an address to the range holding it, and the rules for
//! placing a new range.
use crate::bus_device::RegistrationError;
use crate::memory_map::spec_ranges_overlap;
use vstd::prelude::*;

verus! {

/// An entry of the memory map: the range `[base, end)` and its owner.
pub struct MemoryMapEntry<I> {
    pub base: u32,
    pub end: u32,
    pub id: I,
    pub name: String,
}

/// Abstract memory-map entry.
pub struct MapEntryView<I> {
    pub base: u32,
    pub end: u32,
    pub id: I,
    pub name: Seq<char>,
}

/// First entry, from index `i` on, whose range contains `addr`, with the
/// offset of `addr` in it.
pub open spec fn spec_route_from<I>(map: Seq<MapEntryView<I>>, addr: u32, i: int) -> Option<(I, u32)>
    decreases map.len() - i,
{
    if i < 0 || i >= map.len() {
        None
    } else if map[i].base <= addr && addr < map[i].end {
        Some((map[i].id, (addr - map[i].base) as u32))
    } else {
        spec_route_from(map, addr, i + 1)
    }
}

/// Device and offset an address is routed to, if any.
pub open spec fn spec_route<I>(map: Seq<MapEntryView<I>>, addr: u32) -> Option<(I, u32)> {
    spec_route_from(map, addr, 0)
}

/// Index of the first entry, from index `i` on, overlapping `[base, end)`.
pub open spec fn spec_first_overlap<I>(map: Seq<MapEntryView<I>>, base: u32, end: u32, i: int) -> Option<int>
    decreases map.len() - i,
{
    if i < 0 || i >= map.len() {
        None
    } else if spec_ranges_overlap(base, end, map[i].base, map[i].end) {
        Some(i)
    } else {
        spec_first_overlap(map, base, end, i + 1)
    }
}

/// A found overlap lies at or after the start index and inside the map.
pub proof fn lemma_first_overlap_in_bounds<I>(map: Seq<MapEntryView<I>>, base: u32, end: u32, i: int)
    ensures
        spec_first_overlap(map, base, end, i) matches Some(k) ==> i <= k < map.len()
            && spec_ranges_overlap(base, end, map[k].base, map[k].end),
    decreases map.len() - i,
{
    if 0 <= i < map.len() && !spec_ranges_overlap(base, end, map[i].base, map[i].end) {
        lemma_first_overlap_in_bounds(map, base, end, i + 1);
    }
}

/// A route found from index `i` on comes from an entry at or after `i`
/// whose range holds the address.
pub proof fn lemma_route_from_entry<I>(map: Seq<MapEntryView<I>>, addr: u32, i: int)
    ensures
        spec_route_from(map, addr, i) matches Some((id, off)) ==> exists|j: int|
            #![trigger map[j]]
            i <= j < map.len() && 0 <= i && map[j].id == id && map[j].base <= addr < map[j].end && off
                == addr - map[j].base,
    decreases map.len() - i,
{
    if 0 <= i < map.len() && !(map[i].base <= addr && addr < map[i].end) {
        lemma_route_from_entry(map, addr, i + 1);
    }
}

/// Every entry is a non-empty range and no two entries overlap.
pub open spec fn spec_map_disjoint<I>(map: Seq<MapEntryView<I>>) -> bool {
    &&& forall|i: int| 0 <= i < map.len() ==> #[trigger] map[i].base < map[i].end
    &&& forall|i: int, j: int|
        0 <= i < j < map.len() ==> !spec_ranges_overlap(#[trigger] map[i].base, map[i].end, #[trigger] map[j].base, map[j].end)
}

/// When no entry from `i` on overlaps `[base, end)`, none does.
pub proof fn lemma_no_overlap_from<I>(map: Seq<MapEntryView<I>>, base: u32, end: u32, i: int)
    requires
        0 <= i,
        spec_first_overlap(map, base, end, i) is None,
    ensures
        forall|j: int| i <= j < map.len() ==> !spec_ranges_overlap(base, end, #[trigger] map[j].base, map[j].end),
    decreases map.len() - i,
{
    if i < map.len() {
        lemma_no_overlap_from(map, base, end, i + 1);
    }
}

/// In a disjoint map, an address inside entry `k` is routed to entry `k`,
/// at its offset from the entry's base.
pub proof fn lemma_route_to_containing_entry<I>(map: Seq<MapEntryView<I>>, addr: u32, k: int)
    requires
        spec_map_disjoint(map),
        0 <= k < map.len(),
        map[k].base <= addr < map[k].end,
    ensures
        spec_route(map, addr) == Some((map[k].id, (addr - map[k].base) as u32)),
{
    lemma_route_from_before(map, addr, k, 0);
}

proof fn lemma_route_from_before<I>(map: Seq<MapEntryView<I>>, addr: u32, k: int, i: int)
    requires
        spec_map_disjoint(map),
        0 <= i <= k < map.len(),
        map[k].base <= addr < map[k].end,
    ensures
        spec_route_from(map, addr, i) == Some((map[k].id, (addr - map[k].base) as u32)),
    decreases k - i,
{
    if i < k {
        assert(!spec_ranges_overlap(map[i].base, map[i].end, map[k].base, map[k].end));
        lemma_route_from_before(map, addr, k, i + 1);
    }
}

/// Outcome of registering a device, with names as character sequences.
pub enum RegistrationOutcome {
    Registered,
    AddressOverlap {
        new_base: u32,
        new_end: u32,
        existing_base: u32,
        existing_end: u32,
        existing_name: Seq<char>,
    },
    InvalidAlignment { size: u32 },
    InvalidBaseAlignment { base_addr: u32 },
    ZeroSize,
}

/// The outcome a registration result stands for.
pub open spec fn spec_registration_outcome(r: Result<(), RegistrationError>) -> RegistrationOutcome {
    match r {
        Ok(()) => RegistrationOutcome::Registered,
        Err(RegistrationError::AddressOverlap {
            new_base,
            new_end,
            existing_base,
            existing_end,
            existing_name,
        }) => RegistrationOutcome::AddressOverlap {
            new_base,
            new_end,
            existing_base,
            existing_end,
            existing_name: existing_name@,
        },
        Err(RegistrationError::InvalidAlignment { size }) => RegistrationOutcome::InvalidAlignment { size },
        Err(RegistrationError::InvalidBaseAlignment { base_addr }) =>
            RegistrationOutcome::InvalidBaseAlignment { base_addr },
        Err(RegistrationError::ZeroSize) => RegistrationOutcome::ZeroSize,
    }
}

/// End (exclusive) of a range of `size` bytes at `base`, saturating at the
/// top of the address space.
pub open spec fn spec_range_end(base: u32, size: u32) -> u32 {
    if base + size > u32::MAX { u32::MAX } else { (base + size) as u32 }
}

/// Outcome of registering a device of `size` bytes named `name` at `base`
/// into `map`: the size must be non-zero and a multiple of four, the base a
/// multiple of four, and the range `[base, base + size)` (end saturating)
/// must overlap no entry; the first overlapping entry is reported.
pub open spec fn spec_registration<I>(map: Seq<MapEntryView<I>>, base: u32, size: u32) -> RegistrationOutcome {
    let end = spec_range_end(base, size);
    if size == 0 {
        RegistrationOutcome::ZeroSize
    } else if size % 4 != 0 {
        RegistrationOutcome::InvalidAlignment { size }
    } else if base % 4 != 0 {
        RegistrationOutcome::InvalidBaseAlignment { base_addr: base }
    } else {
        match spec_first_overlap(map, base, end, 0) {
            Some(k) => RegistrationOutcome::AddressOverlap {
                new_base: base,
                new_end: end,
                existing_base: map[k].base,
                existing_end: map[k].end,
                existing_name: map[k].name,
            },
            None => RegistrationOutcome::Registered,
        }
    }
}

} // verus!
