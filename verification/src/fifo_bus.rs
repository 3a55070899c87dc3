//! A system bus with a memory-mapped FIFO: DRAM, the FIFO and the
//! simulator control device are mapped from the start, external devices
//! are added by registration, and unmapped addresses read as zero. The bus
//! also keeps the LR/SC reservation of the atomic extension.
use crate::address_map::{
    lemma_no_overlap_from, lemma_route_from_entry, lemma_route_to_containing_entry, spec_first_overlap,
    spec_map_disjoint, spec_range_end, spec_registration, spec_registration_outcome, spec_route,
    spec_route_from, MapEntryView, MemoryMapEntry,
};
use crate::bus::{spec_byte_or_zero, spec_half_or_zero, spec_one_call_more, DeviceCall};
use crate::bus_device::{BusDevice, BusDeviceError, RegistrationError, SystemContext};
use crate::dram::{
    dram_byte, dram_half, dram_store_byte, dram_store_half, dram_store_word, dram_word, Dram,
};
use crate::fifo::{spec_fifo_read_word, spec_front_or_zero, spec_pop, Fifo};
use crate::memory::Memory;
use crate::memory_map::{ranges_overlap, spec_ranges_overlap, spec_valid_dram_range, DRAM_BASE};
use crate::sim_control::SimControl;
use vstd::prelude::*;

verus! {

/// Base address of the FIFO on this bus.
pub const FIFO_BASE: u32 = 0x4000_0000;

/// Base address of the simulator control device (TOHOST) on this bus.
pub const SIM_CONTROL_BASE: u32 = 0x1000_0000;

/// Which device owns an address range of this bus.
#[derive(Debug, Clone, Copy, PartialEq, Eq, Structural)]
pub enum FifoBusDevice {
    /// The bus's DRAM device.
    Dram,
    /// The bus's FIFO.
    Fifo,
    /// The bus's simulator control device.
    SimControl,
    /// An external device, by registration order.
    External(usize),
}

/// Entry of the simulator control device.
pub open spec fn spec_control_entry() -> MapEntryView<FifoBusDevice> {
    MapEntryView {
        base: SIM_CONTROL_BASE,
        end: spec_range_end(SIM_CONTROL_BASE, 4),
        id: FifoBusDevice::SimControl,
        name: "SimControl"@,
    }
}

/// Entry of the FIFO.
pub open spec fn spec_fifo_entry() -> MapEntryView<FifoBusDevice> {
    MapEntryView { base: FIFO_BASE, end: spec_range_end(FIFO_BASE, 8), id: FifoBusDevice::Fifo, name: "FIFO"@ }
}

/// Entry of the DRAM device.
pub open spec fn spec_dram_entry() -> MapEntryView<FifoBusDevice> {
    MapEntryView {
        base: DRAM_BASE,
        end: spec_range_end(DRAM_BASE, 0x8000_0000),
        id: FifoBusDevice::Dram,
        name: "DRAM"@,
    }
}

/// The memory map of a new bus: simulator control, FIFO, then DRAM.
pub open spec fn spec_initial_map() -> Seq<MapEntryView<FifoBusDevice>> {
    seq![spec_control_entry(), spec_fifo_entry(), spec_dram_entry()]
}

/// Value a word read yields for a device result: the value, or zero on error.
pub open spec fn spec_value_or_zero(r: Result<u32, BusDeviceError>) -> u32 {
    match r {
        Ok(v) => v,
        Err(_) => 0,
    }
}

/// System bus with DRAM, a FIFO and the simulator control device mapped,
/// plus any external devices registered later.
pub struct SystemBus {
    /// System memory, shared by all devices through the context.
    pub memory: Memory,
    /// DRAM device.
    pub dram: Dram,
    /// FIFO between the CPU and the host.
    pub fifo: Fifo,
    /// Simulator control device.
    pub sim_control: SimControl,
    external_devices: Vec<Box<dyn BusDevice>>,
    memory_map: Vec<MemoryMapEntry<FifoBusDevice>>,
    reservation: Option<u32>,
    calls: Ghost<Seq<DeviceCall>>,
}

impl SystemBus {
    /// The memory map.
    pub closed spec fn map(&self) -> Seq<MapEntryView<FifoBusDevice>> {
        self.memory_map@.map_values(
            |e: MemoryMapEntry<FifoBusDevice>| MapEntryView { base: e.base, end: e.end, id: e.id, name: e.name@ },
        )
    }

    /// Contents of system memory.
    pub closed spec fn mem(&self) -> Map<u32, u8> {
        self.memory@
    }

    /// Pending TOHOST value of the simulator control device.
    pub closed spec fn tohost(&self) -> Option<u32> {
        self.sim_control@
    }

    /// Bytes the CPU has sent to the host through the FIFO, oldest first.
    pub closed spec fn tx(&self) -> Seq<u8> {
        self.fifo.tx@
    }

    /// Bytes waiting in the FIFO for the CPU, oldest first.
    pub closed spec fn rx(&self) -> Seq<u8> {
        self.fifo.rx@
    }

    /// The reserved address of a pending load-reserved, if any.
    pub closed spec fn reserved(&self) -> Option<u32> {
        self.reservation
    }

    /// Every call made on an external device since the bus was created,
    /// oldest first (devices are handed a context with zero elapsed time).
    pub closed spec fn device_calls(&self) -> Seq<DeviceCall> {
        self.calls@
    }

    /// Number of external devices.
    pub closed spec fn external_count(&self) -> nat {
        self.external_devices@.len()
    }

    /// The bus is consistent: the map starts with the three internal
    /// devices, entry `3 + i` belongs to external device `i`, and no two
    /// entries overlap.
    pub closed spec fn wf(&self) -> bool {
        &&& self.map().len() == 3 + self.external_devices@.len()
        &&& self.map()[0] == spec_control_entry()
        &&& self.map()[1] == spec_fifo_entry()
        &&& self.map()[2] == spec_dram_entry()
        &&& forall|i: int| 3 <= i < self.map().len() ==> #[trigger] self.map()[i].id == FifoBusDevice::External((i - 3) as usize)
        &&& self.dram@ == DRAM_BASE
        &&& spec_map_disjoint(self.map())
    }

    /// Create a bus with empty memory, idle internal devices, empty FIFO
    /// queues, no reservation and no external devices.
    pub fn new() -> (b: Self)
        ensures
            b.wf(),
            b.mem() == Map::<u32, u8>::empty(),
            b.tohost() == None::<u32>,
            b.tx() == Seq::<u8>::empty(),
            b.rx() == Seq::<u8>::empty(),
            b.reserved() == None::<u32>,
            b.map() == spec_initial_map(),
            b.device_calls() == Seq::<DeviceCall>::empty(),
    {
        let memory = Memory::new();
        let dram = Dram::new();
        let fifo = Fifo::new();
        let sim_control = SimControl::new();
        let mut memory_map: Vec<MemoryMapEntry<FifoBusDevice>> = Vec::new();
        memory_map.push(
            MemoryMapEntry {
                base: SIM_CONTROL_BASE,
                end: SIM_CONTROL_BASE.saturating_add(sim_control.size()),
                id: FifoBusDevice::SimControl,
                name: sim_control.name().to_owned(),
            },
        );
        memory_map.push(
            MemoryMapEntry {
                base: FIFO_BASE,
                end: FIFO_BASE.saturating_add(fifo.size()),
                id: FifoBusDevice::Fifo,
                name: fifo.name().to_owned(),
            },
        );
        memory_map.push(
            MemoryMapEntry {
                base: DRAM_BASE,
                end: DRAM_BASE.saturating_add(dram.size()),
                id: FifoBusDevice::Dram,
                name: dram.name().to_owned(),
            },
        );
        let b = SystemBus {
            memory,
            dram,
            fifo,
            sim_control,
            external_devices: Vec::new(),
            memory_map,
            reservation: None,
            calls: Ghost(Seq::empty()),
        };
        assert(b.map() =~= spec_initial_map());
        assert(spec_map_disjoint(b.map()));
        b
    }

    /// Index of the first map entry overlapping `[base, end)`, if any.
    fn first_overlap(&self, base: u32, end: u32) -> (r: Option<usize>)
        ensures
            match r {
                Some(k) => spec_first_overlap(self.map(), base, end, 0) == Some(k as int) && k
                    < self.memory_map@.len(),
                None => spec_first_overlap(self.map(), base, end, 0) is None,
            },
    {
        let mut i: usize = 0;
        while i < self.memory_map.len()
            invariant
                i <= self.memory_map@.len(),
                spec_first_overlap(self.map(), base, end, 0) == spec_first_overlap(self.map(), base, end, i as int),
            decreases self.memory_map@.len() - i,
        {
            let entry = &self.memory_map[i];
            if ranges_overlap(base, end, entry.base, entry.end) {
                assert(self.map()[i as int].base == entry.base);
                return Some(i);
            }
            i = i + 1;
        }
        None
    }

    /// Register an external device of `size` bytes named `name` at `base_addr`.
    ///
    /// This is the placement decision of [`SystemBus::register_device`],
    /// with the device's size and name already read.
    pub fn register_sized_device(
        &mut self,
        base_addr: u32,
        size: u32,
        name: String,
        device: Box<dyn BusDevice>,
    ) -> (r: Result<(), RegistrationError>)
        requires
            old(self).wf(),
        ensures
            final(self).wf(),
            spec_registration_outcome(r) == spec_registration(old(self).map(), base_addr, size),
            r is Ok ==> final(self).map() == old(self).map().push(
                MapEntryView {
                    base: base_addr,
                    end: spec_range_end(base_addr, size),
                    id: FifoBusDevice::External(old(self).external_count() as usize),
                    name: name@,
                },
            ),
            r is Ok ==> final(self).external_count() == old(self).external_count() + 1 && forall|addr: u32|
                base_addr <= addr < spec_range_end(base_addr, size) ==> #[trigger] spec_route(final(self).map(), addr)
                    == Some((FifoBusDevice::External(old(self).external_count() as usize), (addr - base_addr) as u32)),
            r is Err ==> final(self).map() == old(self).map() && final(self).external_count() == old(self).external_count(),
            final(self).mem() == old(self).mem(),
            final(self).tohost() == old(self).tohost(),
            final(self).tx() == old(self).tx(),
            final(self).rx() == old(self).rx(),
            final(self).reserved() == old(self).reserved(),
            final(self).device_calls() == old(self).device_calls(),
    {
        if size == 0 {
            return Err(RegistrationError::ZeroSize);
        }
        if size % 4 != 0 {
            return Err(RegistrationError::InvalidAlignment { size });
        }
        if base_addr % 4 != 0 {
            return Err(RegistrationError::InvalidBaseAlignment { base_addr });
        }
        let end = base_addr.saturating_add(size);
        match self.first_overlap(base_addr, end) {
            Some(k) => {
                let entry = &self.memory_map[k];
                return Err(
                    RegistrationError::AddressOverlap {
                        new_base: base_addr,
                        new_end: end,
                        existing_base: entry.base,
                        existing_end: entry.end,
                        existing_name: entry.name.clone(),
                    },
                );
            },
            None => {},
        }
        let device_idx = self.external_devices.len();
        self.memory_map.push(
            MemoryMapEntry { base: base_addr, end, id: FifoBusDevice::External(device_idx), name },
        );
        proof {
            // Sequences of trait objects need the push axiom instantiated by hand.
            vstd::seq::axiom_seq_push_len(self.external_devices@, device);
        }
        self.external_devices.push(device);
        proof {
            assert(self.map() =~= old(self).map().push(
                MapEntryView { base: base_addr, end, id: FifoBusDevice::External(device_idx), name: name@ },
            ));
            assert forall|i: int| 3 <= i < self.map().len() implies #[trigger] self.map()[i].id
                == FifoBusDevice::External((i - 3) as usize) by {
                if i < old(self).map().len() {
                    assert(self.map()[i] == old(self).map()[i]);
                }
            }
            assert(self.map()[0] == old(self).map()[0]);
            assert(self.map()[1] == old(self).map()[1]);
            assert(self.map()[2] == old(self).map()[2]);
            lemma_no_overlap_from(old(self).map(), base_addr, end, 0);
            let m = self.map();
            assert forall|i: int, j: int| 0 <= i < j < m.len() implies !spec_ranges_overlap(
                #[trigger] m[i].base,
                m[i].end,
                #[trigger] m[j].base,
                m[j].end,
            ) by {
                assert(m[i] == old(self).map()[i]);
                if j < m.len() - 1 {
                    assert(m[j] == old(self).map()[j]);
                }
            }
            assert forall|i: int| 0 <= i < m.len() implies #[trigger] m[i].base < m[i].end by {
                if i < m.len() - 1 {
                    assert(m[i] == old(self).map()[i]);
                }
            }
            assert forall|addr: u32| base_addr <= addr < end implies #[trigger] spec_route(m, addr) == Some(
                (FifoBusDevice::External(device_idx), (addr - base_addr) as u32),
            ) by {
                lemma_route_to_containing_entry(m, addr, m.len() - 1);
            }
        }
        Ok(())
    }

    /// Register an external device at `base_addr`, taking ownership of it.
    ///
    /// The device's size (its `size()`) and name are read once and decide
    /// the outcome as [`SystemBus::register_sized_device`] states; the new
    /// entry spans the device's window from `base_addr`.
    ///
    /// The contract speaks of the size through `spec_size` of the boxed
    /// trait object, which a verified caller cannot evaluate for a given
    /// device; nor does it give the entry's name, as `name()` has a provided
    /// body that no name specification can bind. A caller that needs the
    /// outcome or the name calls [`SystemBus::register_sized_device`] with
    /// the size and name it knows.
    pub fn register_device(&mut self, base_addr: u32, device: Box<dyn BusDevice>) -> (r: Result<
        (),
        RegistrationError,
    >)
        requires
            old(self).wf(),
        ensures
            final(self).wf(),
            spec_registration_outcome(r) == spec_registration(old(self).map(), base_addr, device.spec_size()),
            r is Err ==> final(self).map() == old(self).map(),
            r is Ok ==> {
                &&& final(self).map().len() == old(self).map().len() + 1
                &&& final(self).map().drop_last() == old(self).map()
                &&& final(self).map().last().base == base_addr
                &&& final(self).map().last().end == spec_range_end(base_addr, device.spec_size())
                &&& final(self).map().last().id == FifoBusDevice::External(old(self).external_count() as usize)
                &&& final(self).external_count() == old(self).external_count() + 1
                &&& forall|addr: u32|
                    base_addr <= addr < spec_range_end(base_addr, device.spec_size()) ==> #[trigger] spec_route(
                        final(self).map(),
                        addr,
                    ) == Some((FifoBusDevice::External(old(self).external_count() as usize), (addr - base_addr) as u32))
            },
            r is Err ==> final(self).external_count() == old(self).external_count(),
            final(self).mem() == old(self).mem(),
            final(self).tohost() == old(self).tohost(),
            final(self).tx() == old(self).tx(),
            final(self).rx() == old(self).rx(),
            final(self).reserved() == old(self).reserved(),
            final(self).device_calls() == old(self).device_calls(),
    {
        let size = device.size();
        let name = device.name().to_owned();
        let r = self.register_sized_device(base_addr, size, name, device);
        proof {
            if r is Ok {
                assert(self.map().drop_last() =~= old(self).map());
            }
        }
        r
    }

    /// Base address, size and name of every mapped device, in map order.
    pub fn registered_devices(&self) -> (r: Vec<(u32, u32, String)>)
        ensures
            r@.len() == self.map().len(),
            forall|i: int|
                0 <= i < r@.len() ==> {
                    &&& (#[trigger] r@[i]).0 == self.map()[i].base
                    &&& r@[i].1 == self.map()[i].end.wrapping_sub(self.map()[i].base)
                    &&& r@[i].2@ == self.map()[i].name
                },
    {
        let mut out: Vec<(u32, u32, String)> = Vec::new();
        let mut i: usize = 0;
        while i < self.memory_map.len()
            invariant
                i <= self.memory_map@.len(),
                out@.len() == i,
                forall|j: int|
                    0 <= j < i ==> {
                        &&& (#[trigger] out@[j]).0 == self.map()[j].base
                        &&& out@[j].1 == self.map()[j].end.wrapping_sub(self.map()[j].base)
                        &&& out@[j].2@ == self.map()[j].name
                    },
            decreases self.memory_map@.len() - i,
        {
            let entry = &self.memory_map[i];
            out.push((entry.base, entry.end.wrapping_sub(entry.base), entry.name.clone()));
            i = i + 1;
        }
        out
    }

    /// The device owning `addr`, with the offset of `addr` in its range.
    fn find_device_id(&self, addr: u32) -> (r: Option<(FifoBusDevice, u32)>)
        ensures
            r == spec_route(self.map(), addr),
    {
        let mut i: usize = 0;
        while i < self.memory_map.len()
            invariant
                i <= self.memory_map@.len(),
                spec_route(self.map(), addr) == spec_route_from(self.map(), addr, i as int),
            decreases self.memory_map@.len() - i,
        {
            let entry = &self.memory_map[i];
            if addr >= entry.base && addr < entry.end {
                return Some((entry.id, addr - entry.base));
            }
            i = i + 1;
        }
        None
    }

    /// Index of external device `idx` is in bounds when the map routes to it.
    proof fn lemma_external_route_in_bounds(&self, addr: u32)
        requires
            self.wf(),
        ensures
            spec_route(self.map(), addr) matches Some((FifoBusDevice::External(idx), _)) ==> idx
                < self.external_devices@.len(),
    {
        lemma_route_from_entry(self.map(), addr, 0);
        if let Some((FifoBusDevice::External(idx), _)) = spec_route(self.map(), addr) {
            let j = choose|j: int|
                #![trigger self.map()[j]]
                0 <= j < self.map().len() && self.map()[j].id == FifoBusDevice::External(idx) && self.map()[j].base
                    <= addr < self.map()[j].end && spec_route(self.map(), addr).unwrap().1 == addr
                    - self.map()[j].base;
            if j < 3 {
                assert(self.map()[0].id == FifoBusDevice::SimControl);
                assert(self.map()[1].id == FifoBusDevice::Fifo);
                assert(self.map()[2].id == FifoBusDevice::Dram);
            } else {
                assert(self.map()[j].id == FifoBusDevice::External((j - 3) as usize));
            }
        }
    }

    /// Read a 32-bit word from the device owning `addr`.
    ///
    /// Unmapped addresses and device errors read as zero.
    pub fn read_word(&mut self, addr: u32) -> (r: u32)
        requires
            old(self).wf(),
        ensures
            final(self).wf(),
            final(self).map() == old(self).map(),
            final(self).reserved() == old(self).reserved(),
            final(self).tohost() == old(self).tohost(),
            final(self).tx() == old(self).tx(),
            !(spec_route(old(self).map(), addr) matches Some((FifoBusDevice::External(_), _))) ==> final(self).device_calls()
                == old(self).device_calls(),
            match spec_route(old(self).map(), addr) {
                None => r == 0 && final(self).mem() == old(self).mem() && final(self).rx() == old(self).rx(),
                Some((FifoBusDevice::Dram, off)) => r == dram_word(old(self).mem(), DRAM_BASE.wrapping_add(off))
                    && final(self).mem() == old(self).mem() && final(self).rx() == old(self).rx(),
                Some((FifoBusDevice::Fifo, off)) => r == spec_value_or_zero(spec_fifo_read_word(old(self).rx(), off))
                    && final(self).mem() == old(self).mem() && final(self).rx() == old(self).rx(),
                Some((FifoBusDevice::SimControl, _)) => r == 0 && final(self).mem() == old(self).mem()
                    && final(self).rx() == old(self).rx(),
                Some((FifoBusDevice::External(i), off)) => final(self).rx() == old(self).rx()
                    && spec_one_call_more(final(self).device_calls(), old(self).device_calls())
                    && (final(self).device_calls().last() matches DeviceCall::ReadWord { device: d, offset: o, elapsed_time_us: t, result: res }
                        && d == i && o == off && t == 0 && r == spec_value_or_zero(res)),
            },
    {
        proof {
            self.lemma_external_route_in_bounds(addr);
        }
        match self.find_device_id(addr) {
            None => 0,
            Some((id, offset)) => {
                let result = {
                    let mut ctx = SystemContext::new(&mut self.memory);
                    match id {
                        FifoBusDevice::Dram => BusDevice::read_word(&mut self.dram, &mut ctx, offset),
                        FifoBusDevice::Fifo => BusDevice::read_word(&mut self.fifo, &mut ctx, offset),
                        FifoBusDevice::SimControl => BusDevice::read_word(&mut self.sim_control, &mut ctx, offset),
                        FifoBusDevice::External(idx) => {
                            let ghost handed = ctx.elapsed();
                            let res = self.external_devices[idx].read_word(&mut ctx, offset);
                            self.calls = Ghost(
                                self.calls@.push(DeviceCall::ReadWord { device: idx, offset, elapsed_time_us: handed, result: res }),
                            );
                            res
                        },
                    }
                };
                match result {
                    Ok(value) => value,
                    Err(_) => 0,
                }
            },
        }
    }

    /// Write a 32-bit word to the device owning `addr`.
    ///
    /// Writes to unmapped addresses, and writes a device refuses, are discarded.
    pub fn write_word(&mut self, addr: u32, value: u32)
        requires
            old(self).wf(),
        ensures
            final(self).wf(),
            final(self).map() == old(self).map(),
            final(self).reserved() == old(self).reserved(),
            final(self).rx() == old(self).rx(),
            !(spec_route(old(self).map(), addr) matches Some((FifoBusDevice::External(_), _))) ==> final(self).device_calls()
                == old(self).device_calls(),
            match spec_route(old(self).map(), addr) {
                None => final(self).mem() == old(self).mem() && final(self).tohost() == old(self).tohost()
                    && final(self).tx() == old(self).tx(),
                Some((FifoBusDevice::Dram, off)) => final(self).mem() == dram_store_word(old(self).mem(), DRAM_BASE.wrapping_add(off), value)
                    && final(self).tohost() == old(self).tohost() && final(self).tx() == old(self).tx(),
                Some((FifoBusDevice::Fifo, _)) => final(self).mem() == old(self).mem()
                    && final(self).tohost() == old(self).tohost() && final(self).tx() == old(self).tx(),
                Some((FifoBusDevice::SimControl, off)) => final(self).mem() == old(self).mem()
                    && final(self).tohost() == (if off == 0 { Some(value) } else { old(self).tohost() })
                    && final(self).tx() == old(self).tx(),
                Some((FifoBusDevice::External(i), off)) => final(self).tohost() == old(self).tohost()
                    && final(self).tx() == old(self).tx()
                    && spec_one_call_more(final(self).device_calls(), old(self).device_calls())
                    && (final(self).device_calls().last() matches DeviceCall::WriteWord { device: d, offset: o, value: x, elapsed_time_us: t, .. }
                        && d == i && o == off && x == value && t == 0),
            },
    {
        proof {
            self.lemma_external_route_in_bounds(addr);
        }
        match self.find_device_id(addr) {
            None => {},
            Some((id, offset)) => {
                let mut ctx = SystemContext::new(&mut self.memory);
                let _ = match id {
                    FifoBusDevice::Dram => BusDevice::write_word(&mut self.dram, &mut ctx, offset, value),
                    FifoBusDevice::Fifo => BusDevice::write_word(&mut self.fifo, &mut ctx, offset, value),
                    FifoBusDevice::SimControl => BusDevice::write_word(&mut self.sim_control, &mut ctx, offset, value),
                    FifoBusDevice::External(idx) => {
                        let ghost handed = ctx.elapsed();
                        let res = self.external_devices[idx].write_word(&mut ctx, offset, value);
                        self.calls = Ghost(
                            self.calls@.push(
                                DeviceCall::WriteWord { device: idx, offset, value, elapsed_time_us: handed, result: res },
                            ),
                        );
                        res
                    },
                };
            },
        }
    }

    /// Read a 16-bit halfword from the device owning `addr`.
    ///
    /// Unmapped addresses and device errors read as zero; the FIFO and the
    /// simulator control device take no halfword accesses.
    pub fn read_halfword(&mut self, addr: u32) -> (r: u16)
        requires
            old(self).wf(),
        ensures
            final(self).wf(),
            final(self).map() == old(self).map(),
            final(self).reserved() == old(self).reserved(),
            final(self).tohost() == old(self).tohost(),
            final(self).tx() == old(self).tx(),
            !(spec_route(old(self).map(), addr) matches Some((FifoBusDevice::External(_), _))) ==> final(self).device_calls()
                == old(self).device_calls(),
            match spec_route(old(self).map(), addr) {
                None => r == 0 && final(self).mem() == old(self).mem() && final(self).rx() == old(self).rx(),
                Some((FifoBusDevice::Dram, off)) => r == dram_half(old(self).mem(), DRAM_BASE.wrapping_add(off))
                    && final(self).mem() == old(self).mem() && final(self).rx() == old(self).rx(),
                Some((FifoBusDevice::Fifo, _)) => r == 0 && final(self).mem() == old(self).mem()
                    && final(self).rx() == old(self).rx(),
                Some((FifoBusDevice::SimControl, _)) => r == 0 && final(self).mem() == old(self).mem()
                    && final(self).rx() == old(self).rx(),
                Some((FifoBusDevice::External(i), off)) => final(self).rx() == old(self).rx()
                    && spec_one_call_more(final(self).device_calls(), old(self).device_calls())
                    && (final(self).device_calls().last() matches DeviceCall::ReadHalfword { device: d, offset: o, elapsed_time_us: t, result: res }
                        && d == i && o == off && t == 0 && r == spec_half_or_zero(res)),
            },
    {
        proof {
            self.lemma_external_route_in_bounds(addr);
        }
        match self.find_device_id(addr) {
            None => 0,
            Some((id, offset)) => {
                let result = {
                    let mut ctx = SystemContext::new(&mut self.memory);
                    match id {
                        FifoBusDevice::Dram => BusDevice::read_halfword(&mut self.dram, &mut ctx, offset),
                        FifoBusDevice::Fifo => BusDevice::read_halfword(&mut self.fifo, &mut ctx, offset),
                        FifoBusDevice::SimControl => BusDevice::read_halfword(&mut self.sim_control, &mut ctx, offset),
                        FifoBusDevice::External(idx) => {
                            let ghost handed = ctx.elapsed();
                            let res = self.external_devices[idx].read_halfword(&mut ctx, offset);
                            self.calls = Ghost(
                                self.calls@.push(DeviceCall::ReadHalfword { device: idx, offset, elapsed_time_us: handed, result: res }),
                            );
                            res
                        },
                    }
                };
                match result {
                    Ok(value) => value,
                    Err(_) => 0,
                }
            },
        }
    }

    /// Write a 16-bit halfword to the device owning `addr`.
    ///
    /// Writes to unmapped addresses, and writes a device refuses, are discarded.
    pub fn write_halfword(&mut self, addr: u32, value: u16)
        requires
            old(self).wf(),
        ensures
            final(self).wf(),
            final(self).map() == old(self).map(),
            final(self).reserved() == old(self).reserved(),
            final(self).rx() == old(self).rx(),
            final(self).tx() == old(self).tx(),
            final(self).tohost() == old(self).tohost(),
            !(spec_route(old(self).map(), addr) matches Some((FifoBusDevice::External(_), _))) ==> final(self).device_calls()
                == old(self).device_calls(),
            match spec_route(old(self).map(), addr) {
                None => final(self).mem() == old(self).mem(),
                Some((FifoBusDevice::Dram, off)) => final(self).mem() == dram_store_half(old(self).mem(), DRAM_BASE.wrapping_add(off), value),
                Some((FifoBusDevice::Fifo, _)) => final(self).mem() == old(self).mem(),
                Some((FifoBusDevice::SimControl, _)) => final(self).mem() == old(self).mem(),
                Some((FifoBusDevice::External(i), off)) => true
                    && spec_one_call_more(final(self).device_calls(), old(self).device_calls())
                    && (final(self).device_calls().last() matches DeviceCall::WriteHalfword { device: d, offset: o, value: x, elapsed_time_us: t, .. }
                        && d == i && o == off && x == value && t == 0),
            },
    {
        proof {
            self.lemma_external_route_in_bounds(addr);
        }
        match self.find_device_id(addr) {
            None => {},
            Some((id, offset)) => {
                let mut ctx = SystemContext::new(&mut self.memory);
                let _ = match id {
                    FifoBusDevice::Dram => BusDevice::write_halfword(&mut self.dram, &mut ctx, offset, value),
                    FifoBusDevice::Fifo => BusDevice::write_halfword(&mut self.fifo, &mut ctx, offset, value),
                    FifoBusDevice::SimControl => BusDevice::write_halfword(&mut self.sim_control, &mut ctx, offset, value),
                    FifoBusDevice::External(idx) => {
                        let ghost handed = ctx.elapsed();
                        let res = self.external_devices[idx].write_halfword(&mut ctx, offset, value);
                        self.calls = Ghost(
                            self.calls@.push(
                                DeviceCall::WriteHalfword { device: idx, offset, value, elapsed_time_us: handed, result: res },
                            ),
                        );
                        res
                    },
                };
            },
        }
    }

    /// Read a byte from the device owning `addr`.
    ///
    /// Unmapped addresses and device errors read as zero. A byte read of the
    /// FIFO's DATA register takes the oldest byte waiting for the CPU.
    pub fn read_byte(&mut self, addr: u32) -> (r: u8)
        requires
            old(self).wf(),
        ensures
            final(self).wf(),
            final(self).map() == old(self).map(),
            final(self).reserved() == old(self).reserved(),
            final(self).tohost() == old(self).tohost(),
            final(self).tx() == old(self).tx(),
            !(spec_route(old(self).map(), addr) matches Some((FifoBusDevice::External(_), _))) ==> final(self).device_calls()
                == old(self).device_calls(),
            match spec_route(old(self).map(), addr) {
                None => r == 0 && final(self).mem() == old(self).mem() && final(self).rx() == old(self).rx(),
                Some((FifoBusDevice::Dram, off)) => r == dram_byte(old(self).mem(), DRAM_BASE.wrapping_add(off))
                    && final(self).mem() == old(self).mem() && final(self).rx() == old(self).rx(),
                Some((FifoBusDevice::Fifo, off)) => final(self).mem() == old(self).mem() && (if off == 0 {
                    r == spec_front_or_zero(old(self).rx()) && final(self).rx() == spec_pop(old(self).rx())
                } else {
                    r == 0 && final(self).rx() == old(self).rx()
                }),
                Some((FifoBusDevice::SimControl, _)) => r == 0 && final(self).mem() == old(self).mem()
                    && final(self).rx() == old(self).rx(),
                Some((FifoBusDevice::External(i), off)) => final(self).rx() == old(self).rx()
                    && spec_one_call_more(final(self).device_calls(), old(self).device_calls())
                    && (final(self).device_calls().last() matches DeviceCall::ReadByte { device: d, offset: o, elapsed_time_us: t, result: res }
                        && d == i && o == off && t == 0 && r == spec_byte_or_zero(res)),
            },
    {
        proof {
            self.lemma_external_route_in_bounds(addr);
        }
        match self.find_device_id(addr) {
            None => 0,
            Some((id, offset)) => {
                let result = {
                    let mut ctx = SystemContext::new(&mut self.memory);
                    match id {
                        FifoBusDevice::Dram => BusDevice::read_byte(&mut self.dram, &mut ctx, offset),
                        FifoBusDevice::Fifo => BusDevice::read_byte(&mut self.fifo, &mut ctx, offset),
                        FifoBusDevice::SimControl => BusDevice::read_byte(&mut self.sim_control, &mut ctx, offset),
                        FifoBusDevice::External(idx) => {
                            let ghost handed = ctx.elapsed();
                            let res = self.external_devices[idx].read_byte(&mut ctx, offset);
                            self.calls = Ghost(
                                self.calls@.push(DeviceCall::ReadByte { device: idx, offset, elapsed_time_us: handed, result: res }),
                            );
                            res
                        },
                    }
                };
                match result {
                    Ok(value) => value,
                    Err(_) => 0,
                }
            },
        }
    }

    /// Write a byte to the device owning `addr`.
    ///
    /// Writes to unmapped addresses, and writes a device refuses, are
    /// discarded. A byte write of the FIFO's DATA register sends the byte
    /// to the host.
    pub fn write_byte(&mut self, addr: u32, value: u8)
        requires
            old(self).wf(),
        ensures
            final(self).wf(),
            final(self).map() == old(self).map(),
            final(self).reserved() == old(self).reserved(),
            final(self).rx() == old(self).rx(),
            final(self).tohost() == old(self).tohost(),
            !(spec_route(old(self).map(), addr) matches Some((FifoBusDevice::External(_), _))) ==> final(self).device_calls()
                == old(self).device_calls(),
            match spec_route(old(self).map(), addr) {
                None => final(self).mem() == old(self).mem() && final(self).tx() == old(self).tx(),
                Some((FifoBusDevice::Dram, off)) => final(self).mem() == dram_store_byte(old(self).mem(), DRAM_BASE.wrapping_add(off), value)
                    && final(self).tx() == old(self).tx(),
                Some((FifoBusDevice::Fifo, off)) => final(self).mem() == old(self).mem()
                    && final(self).tx() == (if off == 0 { old(self).tx().push(value) } else { old(self).tx() }),
                Some((FifoBusDevice::SimControl, _)) => final(self).mem() == old(self).mem()
                    && final(self).tx() == old(self).tx(),
                Some((FifoBusDevice::External(i), off)) => final(self).tx() == old(self).tx()
                    && spec_one_call_more(final(self).device_calls(), old(self).device_calls())
                    && (final(self).device_calls().last() matches DeviceCall::WriteByte { device: d, offset: o, value: x, elapsed_time_us: t, .. }
                        && d == i && o == off && x == value && t == 0),
            },
    {
        proof {
            self.lemma_external_route_in_bounds(addr);
        }
        match self.find_device_id(addr) {
            None => {},
            Some((id, offset)) => {
                let mut ctx = SystemContext::new(&mut self.memory);
                let _ = match id {
                    FifoBusDevice::Dram => BusDevice::write_byte(&mut self.dram, &mut ctx, offset, value),
                    FifoBusDevice::Fifo => BusDevice::write_byte(&mut self.fifo, &mut ctx, offset, value),
                    FifoBusDevice::SimControl => BusDevice::write_byte(&mut self.sim_control, &mut ctx, offset, value),
                    FifoBusDevice::External(idx) => {
                        let ghost handed = ctx.elapsed();
                        let res = self.external_devices[idx].write_byte(&mut ctx, offset, value);
                        self.calls = Ghost(
                            self.calls@.push(
                                DeviceCall::WriteByte { device: idx, offset, value, elapsed_time_us: handed, result: res },
                            ),
                        );
                        res
                    },
                };
            },
        }
    }

    /// Take the TOHOST value the simulator control device holds, leaving
    /// none pending.
    pub fn acknowledge_termination(&mut self) -> (r: Option<u32>)
        requires
            old(self).wf(),
        ensures
            final(self).wf(),
            r == old(self).tohost(),
            final(self).tohost() == None::<u32>,
            final(self).map() == old(self).map(),
            final(self).mem() == old(self).mem(),
            final(self).tx() == old(self).tx(),
            final(self).rx() == old(self).rx(),
            final(self).reserved() == old(self).reserved(),
            final(self).device_calls() == old(self).device_calls(),
    {
        self.sim_control.acknowledge_termination()
    }

    /// Set the LR/SC reservation to `addr`.
    pub fn set_reservation(&mut self, addr: u32)
        requires
            old(self).wf(),
        ensures
            final(self).wf(),
            final(self).reserved() == Some(addr),
            final(self).map() == old(self).map(),
            final(self).mem() == old(self).mem(),
            final(self).tohost() == old(self).tohost(),
            final(self).tx() == old(self).tx(),
            final(self).rx() == old(self).rx(),
            final(self).device_calls() == old(self).device_calls(),
    {
        self.reservation = Some(addr);
    }

    /// Drop the LR/SC reservation.
    pub fn clear_reservation(&mut self)
        requires
            old(self).wf(),
        ensures
            final(self).wf(),
            final(self).reserved() == None::<u32>,
            final(self).map() == old(self).map(),
            final(self).mem() == old(self).mem(),
            final(self).tohost() == old(self).tohost(),
            final(self).tx() == old(self).tx(),
            final(self).rx() == old(self).rx(),
            final(self).device_calls() == old(self).device_calls(),
    {
        self.reservation = None;
    }

    /// Whether the LR/SC reservation is held for exactly `addr`.
    pub fn check_reservation(&self, addr: u32) -> (r: bool)
        ensures
            r == (self.reserved() == Some(addr)),
    {
        match self.reservation {
            Some(a) => a == addr,
            None => false,
        }
    }
}

impl Default for SystemBus {
    fn default() -> (b: Self)
        ensures
            b.wf(),
            b.mem() == Map::<u32, u8>::empty(),
            b.tohost() == None::<u32>,
            b.tx() == Seq::<u8>::empty(),
            b.rx() == Seq::<u8>::empty(),
            b.reserved() == None::<u32>,
            b.map() == spec_initial_map(),
    {
        Self::new()
    }
}

/// On a consistent bus every DRAM address except the last byte of the
/// address space is routed to DRAM, at its offset from `DRAM_BASE`.
pub proof fn lemma_dram_addresses_route_to_dram(bus: &SystemBus, addr: u32)
    requires
        bus.wf(),
        DRAM_BASE <= addr < 0xFFFF_FFFF,
    ensures
        spec_route(bus.map(), addr) == Some((FifoBusDevice::Dram, (addr - DRAM_BASE) as u32)),
        DRAM_BASE.wrapping_add((addr - DRAM_BASE) as u32) == addr,
{
    lemma_route_to_containing_entry(bus.map(), addr, 2);
}

/// On a consistent bus the FIFO's DATA and STATUS registers are routed to
/// the FIFO at offsets 0 and 4, and TOHOST to the simulator control device.
pub proof fn lemma_internal_registers_route(bus: &SystemBus)
    requires
        bus.wf(),
    ensures
        spec_route(bus.map(), FIFO_BASE) == Some((FifoBusDevice::Fifo, 0u32)),
        spec_route(bus.map(), (FIFO_BASE + 4) as u32) == Some((FifoBusDevice::Fifo, 4u32)),
        spec_route(bus.map(), SIM_CONTROL_BASE) == Some((FifoBusDevice::SimControl, 0u32)),
{
    lemma_route_to_containing_entry(bus.map(), FIFO_BASE, 1);
    lemma_route_to_containing_entry(bus.map(), (FIFO_BASE + 4) as u32, 1);
    lemma_route_to_containing_entry(bus.map(), SIM_CONTROL_BASE, 0);
}

/// On a consistent bus, an address inside the range of any mapped device
/// is routed to that device at its offset from the device's base.
pub proof fn lemma_mapped_range_routes_to_its_device(bus: &SystemBus, k: int, addr: u32)
    requires
        bus.wf(),
        0 <= k < bus.map().len(),
        bus.map()[k].base <= addr < bus.map()[k].end,
    ensures
        spec_route(bus.map(), addr) == Some((bus.map()[k].id, (addr - bus.map()[k].base) as u32)),
{
    lemma_route_to_containing_entry(bus.map(), addr, k);
}

/// A word written to DRAM through the bus reads back unchanged.
pub proof fn lemma_dram_word_round_trip(bus: &SystemBus, addr: u32, value: u32)
    requires
        bus.wf(),
        spec_valid_dram_range(addr, 4),
    ensures
        spec_route(bus.map(), addr) == Some((FifoBusDevice::Dram, (addr - DRAM_BASE) as u32)),
        dram_word(dram_store_word(bus.mem(), addr, value), addr) == value,
{
    lemma_dram_addresses_route_to_dram(bus, addr);
    crate::memory::lemma_word_read_after_write(bus.mem(), addr, value);
}

/// On a consistent bus every mapped range is non-empty and no two mapped
/// ranges overlap.
pub proof fn lemma_map_disjoint(bus: &SystemBus)
    requires
        bus.wf(),
    ensures
        spec_map_disjoint(bus.map()),
{
}

} // verus!
