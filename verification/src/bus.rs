//! System bus: routes host-side memory accesses to DRAM, the simulator
//! control device and registered external devices by address.
use crate::address_map::{
    lemma_first_overlap_in_bounds, lemma_no_overlap_from, lemma_route_from_entry,
    lemma_route_to_containing_entry, spec_first_overlap, spec_map_disjoint, spec_range_end,
    spec_registration, spec_registration_outcome, spec_route, spec_route_from, MapEntryView,
    MemoryMapEntry,
};
use crate::bus_device::{BusDevice, BusDeviceError, RegistrationError, SystemContext};
use crate::dram::{
    dram_byte, dram_half, dram_store_byte, dram_store_half, dram_store_word, dram_word, Dram,
};
use crate::fifo::{spec_fifo_read_word, spec_front_or_zero, spec_pop, Fifo};
use crate::fifo_bus::spec_value_or_zero;
use crate::memory::Memory;
use crate::memory_map::{
    ranges_overlap, spec_is_rtl_peripheral, spec_ranges_overlap, spec_valid_dram_range, DRAM_BASE, RTL_PERIPH_BASE,
    RTL_PERIPH_LIMIT, SIM_CONTROL_BASE,
};
use crate::sim_control::SimControl;
use vstd::prelude::*;

verus! {

/// Which device owns an address range.
#[derive(Debug, Clone, Copy, PartialEq, Eq, Structural)]
pub enum DeviceId {
    /// The bus's DRAM device.
    Dram,
    /// The bus's simulator control device.
    SimControl,
    /// An external device, by registration order.
    External(usize),
    /// An attached FIFO, by attachment order.
    Fifo(usize),
}

/// A call the bus made on an external device: the device (by registration
/// order), what it was handed (offset, value, the context's elapsed time)
/// and, for an access, what it answered.
pub enum DeviceCall {
    ReadWord { device: usize, offset: u32, elapsed_time_us: u64, result: Result<u32, BusDeviceError> },
    WriteWord { device: usize, offset: u32, value: u32, elapsed_time_us: u64, result: Result<(), BusDeviceError> },
    ReadHalfword { device: usize, offset: u32, elapsed_time_us: u64, result: Result<u16, BusDeviceError> },
    WriteHalfword { device: usize, offset: u32, value: u16, elapsed_time_us: u64, result: Result<(), BusDeviceError> },
    ReadByte { device: usize, offset: u32, elapsed_time_us: u64, result: Result<u8, BusDeviceError> },
    WriteByte { device: usize, offset: u32, value: u8, elapsed_time_us: u64, result: Result<(), BusDeviceError> },
    Reset { device: usize, elapsed_time_us: u64 },
    ClockCycle { device: usize, elapsed_time_us: u64 },
}

/// `after` is `before` with one more call, whose kind and arguments `last` checks.
pub open spec fn spec_one_call_more(after: Seq<DeviceCall>, before: Seq<DeviceCall>) -> bool {
    &&& after.len() == before.len() + 1
    &&& after.drop_last() =~= before
}

/// Elapsed time, in microseconds, a device call was handed.
pub open spec fn call_elapsed(c: DeviceCall) -> u64 {
    match c {
        DeviceCall::ReadWord { elapsed_time_us, .. } => elapsed_time_us,
        DeviceCall::WriteWord { elapsed_time_us, .. } => elapsed_time_us,
        DeviceCall::ReadHalfword { elapsed_time_us, .. } => elapsed_time_us,
        DeviceCall::WriteHalfword { elapsed_time_us, .. } => elapsed_time_us,
        DeviceCall::ReadByte { elapsed_time_us, .. } => elapsed_time_us,
        DeviceCall::WriteByte { elapsed_time_us, .. } => elapsed_time_us,
        DeviceCall::Reset { elapsed_time_us, .. } => elapsed_time_us,
        DeviceCall::ClockCycle { elapsed_time_us, .. } => elapsed_time_us,
    }
}

/// `after` is `before` followed by calls that were each handed elapsed time `t`.
pub open spec fn spec_calls_carry(after: Seq<DeviceCall>, before: Seq<DeviceCall>, t: u64) -> bool {
    &&& before.len() <= after.len()
    &&& after.subrange(0, before.len() as int) =~= before
    &&& forall|k: int| before.len() <= k < after.len() ==> call_elapsed(#[trigger] after[k]) == t
}

/// Calls `Reset` (or `ClockCycle`) on devices `0..n`, in order, each handed `elapsed`.
pub open spec fn spec_sweep(n: nat, elapsed: u64, reset: bool) -> Seq<DeviceCall> {
    Seq::new(
        n,
        |i: int|
            if reset {
                DeviceCall::Reset { device: i as usize, elapsed_time_us: elapsed }
            } else {
                DeviceCall::ClockCycle { device: i as usize, elapsed_time_us: elapsed }
            },
    )
}

/// Halfword a read yields for a device result: the value, or zero on error.
pub open spec fn spec_half_or_zero(r: Result<u16, BusDeviceError>) -> u16 {
    match r {
        Ok(v) => v,
        Err(_) => 0,
    }
}

/// Byte a read yields for a device result: the value, or zero on error.
pub open spec fn spec_byte_or_zero(r: Result<u8, BusDeviceError>) -> u8 {
    match r {
        Ok(v) => v,
        Err(_) => 0,
    }
}

/// Every address of `[base, end)` is routed to `id`, at its offset from `base`.
pub open spec fn spec_range_routes_to(map: Seq<MapEntryView<DeviceId>>, base: u32, end: u32, id: DeviceId) -> bool {
    forall|addr: u32| base <= addr < end ==> #[trigger] spec_route(map, addr) == Some((id, (addr - base) as u32))
}

/// `id` names a registered device or attached FIFO of a bus holding
/// `n_external` external devices and `n_fifos` FIFOs.
pub open spec fn spec_id_held(id: DeviceId, n_external: nat, n_fifos: nat) -> bool {
    match id {
        DeviceId::External(e) => e < n_external,
        DeviceId::Fifo(f) => f < n_fifos,
        _ => false,
    }
}

/// Entry of the simulator control device.
pub open spec fn spec_sim_control_entry() -> MapEntryView<DeviceId> {
    MapEntryView {
        base: SIM_CONTROL_BASE,
        end: spec_range_end(SIM_CONTROL_BASE, 4),
        id: DeviceId::SimControl,
        name: "SimControl"@,
    }
}

/// Entry of the DRAM device.
pub open spec fn spec_dram_entry() -> MapEntryView<DeviceId> {
    MapEntryView {
        base: DRAM_BASE,
        end: spec_range_end(DRAM_BASE, 0x8000_0000),
        id: DeviceId::Dram,
        name: "DRAM"@,
    }
}

/// The memory map of a new bus: simulator control, then DRAM.
pub open spec fn spec_initial_map() -> Seq<MapEntryView<DeviceId>> {
    seq![spec_sim_control_entry(), spec_dram_entry()]
}

/// System bus that routes accesses to the device owning each address.
///
/// The bus owns system memory, the DRAM and simulator control devices, and
/// any external devices registered later. FIFOs are attached by
/// [`SystemBus::register_fifo`] and stay reachable to the host, which feeds
/// them and collects what the CPU sends. Addresses in the RTL peripheral
/// window are served by the RTL model and must not reach this bus.
pub struct SystemBus {
    /// System memory, shared by all devices through the context.
    pub memory: Memory,
    /// DRAM device.
    pub dram: Dram,
    /// Simulator control device.
    pub sim_control: SimControl,
    external_devices: Vec<Box<dyn BusDevice>>,
    fifos: Vec<Fifo>,
    memory_map: Vec<MemoryMapEntry<DeviceId>>,
    elapsed_time_us: u64,
    calls: Ghost<Seq<DeviceCall>>,
}

impl SystemBus {
    /// The memory map.
    pub closed spec fn map(&self) -> Seq<MapEntryView<DeviceId>> {
        self.memory_map@.map_values(
            |e: MemoryMapEntry<DeviceId>| MapEntryView { base: e.base, end: e.end, id: e.id, name: e.name@ },
        )
    }

    /// Contents of system memory.
    pub closed spec fn mem(&self) -> Map<u32, u8> {
        self.memory@
    }

    /// Pending TOHOST value of the simulator control device.
    pub closed spec fn tohost(&self) -> Option<u32> {
        self.sim_control@
    }

    /// Elapsed host time handed to devices, in microseconds.
    pub closed spec fn elapsed(&self) -> u64 {
        self.elapsed_time_us
    }

    /// Every call made on an external device since the bus was created, oldest first.
    pub closed spec fn device_calls(&self) -> Seq<DeviceCall> {
        self.calls@
    }

    /// Number of external devices.
    pub closed spec fn external_count(&self) -> nat {
        self.external_devices@.len()
    }

    /// Number of attached FIFOs.
    pub closed spec fn fifo_count(&self) -> nat {
        self.fifos@.len()
    }

    /// Bytes waiting in FIFO `k` for the CPU, oldest first.
    pub closed spec fn fifo_rx(&self, k: int) -> Seq<u8> {
        self.fifos@[k].rx@
    }

    /// Bytes FIFO `k` holds from the CPU for the host, oldest first.
    pub closed spec fn fifo_tx(&self, k: int) -> Seq<u8> {
        self.fifos@[k].tx@
    }

    /// Every FIFO other than `k` is as in `other`.
    pub open spec fn other_fifos_same(&self, other: &SystemBus, k: int) -> bool {
        &&& self.fifo_count() == other.fifo_count()
        &&& forall|j: int| 0 <= j < self.fifo_count() && j != k ==> #[trigger] self.fifo_rx(j) == other.fifo_rx(j)
            && self.fifo_tx(j) == other.fifo_tx(j)
    }

    /// The bus is consistent: the map starts with the two internal devices,
    /// every later entry names a registered device or an attached FIFO, and
    /// no two entries overlap.
    pub closed spec fn wf(&self) -> bool {
        &&& self.map().len() >= 2
        &&& self.map()[0] == spec_sim_control_entry()
        &&& self.map()[1] == spec_dram_entry()
        &&& forall|i: int|
            2 <= i < self.map().len() ==> spec_id_held(#[trigger] self.map()[i].id, self.external_devices@.len(), self.fifos@.len())
        &&& self.dram@ == DRAM_BASE
        &&& spec_map_disjoint(self.map())
    }

    /// Create a bus with empty memory, idle internal devices and no
    /// external devices.
    pub fn new() -> (b: Self)
        ensures
            b.wf(),
            b.mem() == Map::<u32, u8>::empty(),
            b.tohost() == None::<u32>,
            b.map() == spec_initial_map(),
            b.elapsed() == 0,
            b.fifo_count() == 0,
            b.device_calls() == Seq::<DeviceCall>::empty(),
    {
        let memory = Memory::new();
        let dram = Dram::new();
        let sim_control = SimControl::new();
        let mut memory_map: Vec<MemoryMapEntry<DeviceId>> = Vec::new();
        memory_map.push(
            MemoryMapEntry {
                base: SIM_CONTROL_BASE,
                end: SIM_CONTROL_BASE.saturating_add(sim_control.size()),
                id: DeviceId::SimControl,
                name: sim_control.name().to_owned(),
            },
        );
        memory_map.push(
            MemoryMapEntry {
                base: DRAM_BASE,
                end: DRAM_BASE.saturating_add(dram.size()),
                id: DeviceId::Dram,
                name: dram.name().to_owned(),
            },
        );
        let b = SystemBus {
            memory,
            dram,
            sim_control,
            external_devices: Vec::new(),
            fifos: Vec::new(),
            memory_map,
            elapsed_time_us: 0,
            calls: Ghost(Seq::empty()),
        };
        assert(b.map() =~= spec_initial_map());
        assert(spec_map_disjoint(b.map()));
        b
    }

    /// Whether `addr` lies in the peripheral window served by the RTL model.
    pub fn is_rtl_peripheral(&self, addr: u32) -> (r: bool)
        ensures
            r == spec_is_rtl_peripheral(addr),
    {
        RTL_PERIPH_BASE <= addr && addr < RTL_PERIPH_LIMIT
    }

    /// Set the elapsed host time handed to devices.
    pub fn update_elapsed_time(&mut self, elapsed_time_us: u64)
        requires
            old(self).wf(),
        ensures
            final(self).wf(),
            final(self).elapsed() == elapsed_time_us,
            final(self).map() == old(self).map(),
            final(self).mem() == old(self).mem(),
            final(self).tohost() == old(self).tohost(),
            final(self).other_fifos_same(old(self), -1),
            final(self).device_calls() == old(self).device_calls(),
    {
        self.elapsed_time_us = elapsed_time_us;
    }
    /// Index of the first map entry overlapping `[base, end)`, if any.
    fn first_overlap(&self, base: u32, end: u32) -> (r: Option<usize>)
        ensures
            match r {
                Some(k) => spec_first_overlap(self.map(), base, end, 0) == Some(k as int) && k
                    < self.memory_map@.len(),
                None => spec_first_overlap(self.map(), base, end, 0) is None,
            },
    {
        let mut i: usize = 0;
        while i < self.memory_map.len()
            invariant
                i <= self.memory_map@.len(),
                spec_first_overlap(self.map(), base, end, 0) == spec_first_overlap(self.map(), base, end, i as int),
            decreases self.memory_map@.len() - i,
        {
            let entry = &self.memory_map[i];
            if ranges_overlap(base, end, entry.base, entry.end) {
                assert(self.map()[i as int].base == entry.base);
                return Some(i);
            }
            i = i + 1;
        }
        None
    }

    /// Where a range of `size` bytes at `base_addr` may go: its end when it
    /// can be placed, the refusal otherwise.
    fn check_placement(&self, base_addr: u32, size: u32) -> (r: Result<u32, RegistrationError>)
        ensures
            match r {
                Ok(end) => end == spec_range_end(base_addr, size) && base_addr < end
                    && spec_registration(self.map(), base_addr, size) is Registered
                    && spec_first_overlap(self.map(), base_addr, end, 0) is None,
                Err(e) => spec_registration_outcome(Err::<(), RegistrationError>(e))
                    == spec_registration(self.map(), base_addr, size),
            },
    {
        if size == 0 {
            return Err(RegistrationError::ZeroSize);
        }
        if size % 4 != 0 {
            return Err(RegistrationError::InvalidAlignment { size });
        }
        if base_addr % 4 != 0 {
            return Err(RegistrationError::InvalidBaseAlignment { base_addr });
        }
        let end = base_addr.saturating_add(size);
        match self.first_overlap(base_addr, end) {
            Some(k) => {
                let entry = &self.memory_map[k];
                Err(
                    RegistrationError::AddressOverlap {
                        new_base: base_addr,
                        new_end: end,
                        existing_base: entry.base,
                        existing_end: entry.end,
                        existing_name: entry.name.clone(),
                    },
                )
            },
            None => Ok(end),
        }
    }

    /// A bus that holds at least the devices and FIFOs of a consistent bus,
    /// with the same map, is consistent.
    proof fn lemma_wf_holding_more(&self, before: &SystemBus)
        requires
            before.wf(),
            self.memory_map@ == before.memory_map@,
            self.dram@ == before.dram@,
            self.external_devices@.len() >= before.external_devices@.len(),
            self.fifos@.len() >= before.fifos@.len(),
        ensures
            self.wf(),
    {
        assert(self.map() == before.map());
        assert forall|i: int| 2 <= i < self.map().len() implies spec_id_held(
            #[trigger] self.map()[i].id,
            self.external_devices@.len(),
            self.fifos@.len(),
        ) by {
            assert(spec_id_held(before.map()[i].id, before.external_devices@.len(), before.fifos@.len()));
        }
    }

    /// Append the entry `[base_addr, end)` for a device the bus holds.
    fn push_entry(&mut self, base_addr: u32, end: u32, id: DeviceId, name: String)
        requires
            old(self).wf(),
            base_addr < end,
            spec_first_overlap(old(self).map(), base_addr, end, 0) is None,
            spec_id_held(id, old(self).external_devices@.len(), old(self).fifos@.len()),
        ensures
            final(self).wf(),
            final(self).map() == old(self).map().push(MapEntryView { base: base_addr, end, id, name: name@ }),
            final(self).memory@ == old(self).memory@,
            final(self).sim_control@ == old(self).sim_control@,
            final(self).external_devices@ == old(self).external_devices@,
            final(self).fifos@ == old(self).fifos@,
            final(self).elapsed_time_us == old(self).elapsed_time_us,
            final(self).calls == old(self).calls,
    {
        let ghost entry = MapEntryView { base: base_addr, end, id, name: name@ };
        self.memory_map.push(MemoryMapEntry { base: base_addr, end, id, name });
        proof {
            assert(self.map() =~= old(self).map().push(entry));
            assert forall|i: int| 2 <= i < self.map().len() implies spec_id_held(
                #[trigger] self.map()[i].id,
                self.external_devices@.len(),
                self.fifos@.len(),
            ) by {
                if i < old(self).map().len() {
                    assert(self.map()[i] == old(self).map()[i]);
                }
            }
            assert(self.map()[0] == old(self).map()[0]);
            assert(self.map()[1] == old(self).map()[1]);
            lemma_no_overlap_from(old(self).map(), base_addr, end, 0);
            let m = self.map();
            assert forall|i: int, j: int| 0 <= i < j < m.len() implies !spec_ranges_overlap(
                #[trigger] m[i].base,
                m[i].end,
                #[trigger] m[j].base,
                m[j].end,
            ) by {
                if j == m.len() - 1 {
                    assert(m[i] == old(self).map()[i]);
                    assert(!spec_ranges_overlap(base_addr, end, m[i].base, m[i].end));
                } else {
                    assert(m[i] == old(self).map()[i]);
                    assert(m[j] == old(self).map()[j]);
                }
            }
            assert forall|i: int| 0 <= i < m.len() implies #[trigger] m[i].base < m[i].end by {
                if i < m.len() - 1 {
                    assert(m[i] == old(self).map()[i]);
                }
            }
        }
    }

    /// Register an external device of `size` bytes named `name` at `base_addr`.
    ///
    /// This is the placement decision of [`SystemBus::register_device`],
    /// with the device's size and name already read.
    pub fn register_sized_device(
        &mut self,
        base_addr: u32,
        size: u32,
        name: String,
        device: Box<dyn BusDevice>,
    ) -> (r: Result<(), RegistrationError>)
        requires
            old(self).wf(),
        ensures
            final(self).wf(),
            spec_registration_outcome(r) == spec_registration(old(self).map(), base_addr, size),
            r is Ok ==> final(self).map() == old(self).map().push(
                MapEntryView {
                    base: base_addr,
                    end: spec_range_end(base_addr, size),
                    id: DeviceId::External(old(self).external_count() as usize),
                    name: name@,
                },
            ),
            r is Ok ==> final(self).external_count() == old(self).external_count() + 1 && spec_range_routes_to(
                final(self).map(),
                base_addr,
                spec_range_end(base_addr, size),
                DeviceId::External(old(self).external_count() as usize),
            ),
            r is Err ==> final(self).map() == old(self).map() && final(self).external_count() == old(self).external_count(),
            final(self).mem() == old(self).mem(),
            final(self).tohost() == old(self).tohost(),
            final(self).elapsed() == old(self).elapsed(),
            final(self).other_fifos_same(old(self), -1),
            final(self).device_calls() == old(self).device_calls(),
    {
        let end = match self.check_placement(base_addr, size) {
            Ok(end) => end,
            Err(e) => {
                return Err(e);
            },
        };
        let device_idx = self.external_devices.len();
        let ghost before = *self;
        proof {
            // Sequences of trait objects need the push axiom instantiated by hand.
            vstd::seq::axiom_seq_push_len(self.external_devices@, device);
        }
        self.external_devices.push(device);
        proof {
            self.lemma_wf_holding_more(&before);
        }
        self.push_entry(base_addr, end, DeviceId::External(device_idx), name);
        proof {
            self.lemma_last_range_routes();
        }
        Ok(())
    }

    /// Attach a FIFO at `base_addr`, keeping it reachable to the host.
    ///
    /// The FIFO's size and name are read once and placed by the rules of
    /// [`SystemBus::register_sized_device`]; on success the FIFO is number
    /// `fifo_count()` of the bus before the call, with its queues as given.
    pub fn register_fifo(&mut self, base_addr: u32, fifo: Fifo) -> (r: Result<(), RegistrationError>)
        requires
            old(self).wf(),
        ensures
            final(self).wf(),
            spec_registration_outcome(r) == spec_registration(old(self).map(), base_addr, 8),
            r is Ok ==> {
                &&& final(self).map() == old(self).map().push(
                    MapEntryView {
                        base: base_addr,
                        end: spec_range_end(base_addr, 8),
                        id: DeviceId::Fifo(old(self).fifo_count() as usize),
                        name: "FIFO"@,
                    },
                )
                &&& final(self).fifo_count() == old(self).fifo_count() + 1
                &&& spec_range_routes_to(
                    final(self).map(),
                    base_addr,
                    spec_range_end(base_addr, 8),
                    DeviceId::Fifo(old(self).fifo_count() as usize),
                )
                &&& final(self).fifo_rx(old(self).fifo_count() as int) == fifo.rx@
                &&& final(self).fifo_tx(old(self).fifo_count() as int) == fifo.tx@
                &&& forall|j: int|
                    0 <= j < old(self).fifo_count() ==> #[trigger] final(self).fifo_rx(j) == old(self).fifo_rx(j)
                        && final(self).fifo_tx(j) == old(self).fifo_tx(j)
            },
            r is Err ==> final(self).map() == old(self).map() && final(self).other_fifos_same(old(self), -1),
            final(self).mem() == old(self).mem(),
            final(self).tohost() == old(self).tohost(),
            final(self).elapsed() == old(self).elapsed(),
            final(self).external_count() == old(self).external_count(),
            final(self).device_calls() == old(self).device_calls(),
    {
        let size = fifo.size();
        let name = fifo.name().to_owned();
        let end = match self.check_placement(base_addr, size) {
            Ok(end) => end,
            Err(e) => {
                return Err(e);
            },
        };
        let idx = self.fifos.len();
        let ghost before = *self;
        self.fifos.push(fifo);
        proof {
            self.lemma_wf_holding_more(&before);
        }
        self.push_entry(base_addr, end, DeviceId::Fifo(idx), name);
        proof {
            self.lemma_last_range_routes();
        }
        Ok(())
    }

    /// Register an external device at `base_addr`, taking ownership of it.
    ///
    /// The device's size (its `size()`) and name are read once and decide
    /// the outcome as [`SystemBus::register_sized_device`] states; the new
    /// entry spans the device's window from `base_addr`.
    ///
    /// The contract speaks of the size through `spec_size` of the boxed
    /// trait object, which a verified caller cannot evaluate for a given
    /// device; nor does it give the entry's name, as `name()` has a provided
    /// body that no name specification can bind. A caller that needs the
    /// outcome or the name calls [`SystemBus::register_sized_device`] with
    /// the size and name it knows.
    pub fn register_device(&mut self, base_addr: u32, device: Box<dyn BusDevice>) -> (r: Result<
        (),
        RegistrationError,
    >)
        requires
            old(self).wf(),
        ensures
            final(self).wf(),
            spec_registration_outcome(r) == spec_registration(old(self).map(), base_addr, device.spec_size()),
            r is Err ==> final(self).map() == old(self).map(),
            r is Ok ==> {
                &&& final(self).map().len() == old(self).map().len() + 1
                &&& final(self).map().drop_last() == old(self).map()
                &&& final(self).map().last().base == base_addr
                &&& final(self).map().last().end == spec_range_end(base_addr, device.spec_size())
                &&& final(self).map().last().id == DeviceId::External(old(self).external_count() as usize)
                &&& final(self).external_count() == old(self).external_count() + 1
                &&& spec_range_routes_to(
                    final(self).map(),
                    base_addr,
                    spec_range_end(base_addr, device.spec_size()),
                    DeviceId::External(old(self).external_count() as usize),
                )
            },
            r is Err ==> final(self).external_count() == old(self).external_count(),
            final(self).mem() == old(self).mem(),
            final(self).tohost() == old(self).tohost(),
            final(self).elapsed() == old(self).elapsed(),
            final(self).other_fifos_same(old(self), -1),
            final(self).device_calls() == old(self).device_calls(),
    {
        let size = device.size();
        let name = device.name().to_owned();
        let r = self.register_sized_device(base_addr, size, name, device);
        proof {
            if r is Ok {
                assert(self.map().drop_last() =~= old(self).map());
            }
        }
        r
    }

    /// Base address, size and name of every mapped device, in map order.
    pub fn registered_devices(&self) -> (r: Vec<(u32, u32, String)>)
        ensures
            r@.len() == self.map().len(),
            forall|i: int|
                0 <= i < r@.len() ==> {
                    &&& (#[trigger] r@[i]).0 == self.map()[i].base
                    &&& r@[i].1 == self.map()[i].end.wrapping_sub(self.map()[i].base)
                    &&& r@[i].2@ == self.map()[i].name
                },
    {
        let mut out: Vec<(u32, u32, String)> = Vec::new();
        let mut i: usize = 0;
        while i < self.memory_map.len()
            invariant
                i <= self.memory_map@.len(),
                out@.len() == i,
                forall|j: int|
                    0 <= j < i ==> {
                        &&& (#[trigger] out@[j]).0 == self.map()[j].base
                        &&& out@[j].1 == self.map()[j].end.wrapping_sub(self.map()[j].base)
                        &&& out@[j].2@ == self.map()[j].name
                    },
            decreases self.memory_map@.len() - i,
        {
            let entry = &self.memory_map[i];
            out.push((entry.base, entry.end.wrapping_sub(entry.base), entry.name.clone()));
            i = i + 1;
        }
        out
    }

    /// Take the TOHOST value the simulator control device holds, leaving
    /// none pending.
    pub fn acknowledge_termination(&mut self) -> (r: Option<u32>)
        requires
            old(self).wf(),
        ensures
            final(self).wf(),
            r == old(self).tohost(),
            final(self).tohost() == None::<u32>,
            final(self).map() == old(self).map(),
            final(self).mem() == old(self).mem(),
            final(self).elapsed() == old(self).elapsed(),
            final(self).external_count() == old(self).external_count(),
            final(self).other_fifos_same(old(self), -1),
            final(self).device_calls() == old(self).device_calls(),
    {
        self.sim_control.acknowledge_termination()
    }

    /// Queue `byte` in attached FIFO `k` for the CPU to read.
    pub fn fifo_push_rx(&mut self, k: usize, byte: u8)
        requires
            old(self).wf(),
            k < old(self).fifo_count(),
        ensures
            final(self).wf(),
            final(self).map() == old(self).map(),
            final(self).mem() == old(self).mem(),
            final(self).tohost() == old(self).tohost(),
            final(self).elapsed() == old(self).elapsed(),
            final(self).other_fifos_same(old(self), k as int),
            final(self).fifo_rx(k as int) == old(self).fifo_rx(k as int).push(byte),
            final(self).fifo_tx(k as int) == old(self).fifo_tx(k as int),
            final(self).device_calls() == old(self).device_calls(),
    {
        let ghost before = self.fifos@;
        self.fifos[k].rx.push_back(byte);
        proof {
            assert(self.fifos@ == before.update(k as int, self.fifos@[k as int]));
            assert forall|j: int| 0 <= j < self.fifos@.len() && j != k implies #[trigger] self.fifos@[j] == before[j] by {}
        }
    }

    /// Take the oldest byte attached FIFO `k` holds from the CPU, if any.
    pub fn fifo_pop_tx(&mut self, k: usize) -> (r: Option<u8>)
        requires
            old(self).wf(),
            k < old(self).fifo_count(),
        ensures
            final(self).wf(),
            final(self).map() == old(self).map(),
            final(self).mem() == old(self).mem(),
            final(self).tohost() == old(self).tohost(),
            final(self).elapsed() == old(self).elapsed(),
            final(self).other_fifos_same(old(self), k as int),
            final(self).fifo_rx(k as int) == old(self).fifo_rx(k as int),
            final(self).fifo_tx(k as int) == spec_pop(old(self).fifo_tx(k as int)),
            final(self).device_calls() == old(self).device_calls(),
            r == (if old(self).fifo_tx(k as int).len() > 0 {
                Some(old(self).fifo_tx(k as int)[0])
            } else {
                None::<u8>
            }),
    {
        let ghost before = self.fifos@;
        let r = self.fifos[k].tx.pop_front();
        proof {
            assert(self.fifos@ == before.update(k as int, self.fifos@[k as int]));
            assert forall|j: int| 0 <= j < self.fifos@.len() && j != k implies #[trigger] self.fifos@[j] == before[j] by {}
            if before[k as int].tx@.len() > 0 {
                assert(self.fifos@[k as int].tx@ =~= before[k as int].tx@.drop_first());
            }
        }
        r
    }

    /// The device owning `addr`, with the offset of `addr` in its range.
    fn find_device_id(&self, addr: u32) -> (r: Option<(DeviceId, u32)>)
        ensures
            r == spec_route(self.map(), addr),
    {
        let mut i: usize = 0;
        while i < self.memory_map.len()
            invariant
                i <= self.memory_map@.len(),
                spec_route(self.map(), addr) == spec_route_from(self.map(), addr, i as int),
            decreases self.memory_map@.len() - i,
        {
            let entry = &self.memory_map[i];
            if addr >= entry.base && addr < entry.end {
                return Some((entry.id, addr - entry.base));
            }
            i = i + 1;
        }
        None
    }
    /// On a consistent bus the range of the last entry is routed to it.
    proof fn lemma_last_range_routes(&self)
        requires
            self.wf(),
        ensures
            spec_range_routes_to(self.map(), self.map().last().base, self.map().last().end, self.map().last().id),
    {
        let k = self.map().len() - 1;
        assert forall|addr: u32|
            self.map().last().base <= addr < self.map().last().end implies #[trigger] spec_route(self.map(), addr)
            == Some((self.map().last().id, (addr - self.map().last().base) as u32)) by {
            lemma_route_to_containing_entry(self.map(), addr, k);
        }
    }

    /// The device the map routes an address to is one the bus holds.
    proof fn lemma_route_in_bounds(&self, addr: u32)
        requires
            self.wf(),
        ensures
            spec_route(self.map(), addr) matches Some((DeviceId::External(idx), _)) ==> idx
                < self.external_devices@.len(),
            spec_route(self.map(), addr) matches Some((DeviceId::Fifo(idx), _)) ==> idx < self.fifos@.len(),
    {
        lemma_route_from_entry(self.map(), addr, 0);
        if let Some((id, _)) = spec_route(self.map(), addr) {
            let j = choose|j: int|
                #![trigger self.map()[j]]
                0 <= j < self.map().len() && self.map()[j].id == id && self.map()[j].base <= addr < self.map()[j].end
                    && spec_route(self.map(), addr).unwrap().1 == addr - self.map()[j].base;
            if j < 2 {
                assert(self.map()[0].id == DeviceId::SimControl);
                assert(self.map()[1].id == DeviceId::Dram);
            } else {
                assert(spec_id_held(self.map()[j].id, self.external_devices@.len(), self.fifos@.len()));
            }
        }
    }

    /// Read a 32-bit word from the device owning `addr`.
    ///
    /// Unmapped addresses and device errors read as zero.
    pub fn read_word(&mut self, addr: u32) -> (r: u32)
        requires
            old(self).wf(),
            !spec_is_rtl_peripheral(addr),
        ensures
            final(self).wf(),
            final(self).map() == old(self).map(),
            final(self).elapsed() == old(self).elapsed(),
            final(self).fifo_count() == old(self).fifo_count(),
            !(spec_route(old(self).map(), addr) matches Some((DeviceId::External(_), _))) ==> final(self).device_calls()
                == old(self).device_calls(),
            spec_calls_carry(final(self).device_calls(), old(self).device_calls(), old(self).elapsed()),
            match spec_route(old(self).map(), addr) {
                None => r == 0 && final(self).mem() == old(self).mem() && final(self).tohost() == old(self).tohost() && final(self).other_fifos_same(old(self), -1),
                Some((DeviceId::Dram, off)) => r == dram_word(old(self).mem(), DRAM_BASE.wrapping_add(off))
                    && final(self).mem() == old(self).mem() && final(self).tohost() == old(self).tohost() && final(self).other_fifos_same(old(self), -1),
                Some((DeviceId::SimControl, _)) => r == 0 && final(self).mem() == old(self).mem() && final(self).tohost() == old(self).tohost() && final(self).other_fifos_same(old(self), -1),
                Some((DeviceId::External(i), off)) => final(self).tohost() == old(self).tohost() && final(self).other_fifos_same(old(self), -1)
                    && spec_one_call_more(final(self).device_calls(), old(self).device_calls())
                    && (final(self).device_calls().last() matches DeviceCall::ReadWord { device: d, offset: o, elapsed_time_us: t, result: res }
                        && d == i && o == off && t == old(self).elapsed() && r == spec_value_or_zero(res)),
                Some((DeviceId::Fifo(k), off)) => r == spec_value_or_zero(spec_fifo_read_word(old(self).fifo_rx(k as int), off))
                    && final(self).mem() == old(self).mem() && final(self).tohost() == old(self).tohost() && final(self).other_fifos_same(old(self), -1),
            },
    {
        proof {
            self.lemma_route_in_bounds(addr);
        }
        match self.find_device_id(addr) {
            None => 0,
            Some((id, offset)) => {
                let result = {
                    let mut ctx = SystemContext::with_elapsed_time(&mut self.memory, self.elapsed_time_us);
                    match id {
                        DeviceId::Dram => BusDevice::read_word(&mut self.dram, &mut ctx, offset),
                        DeviceId::SimControl => BusDevice::read_word(&mut self.sim_control, &mut ctx, offset),
                        DeviceId::External(idx) => {
                            let ghost handed = ctx.elapsed();
                            let res = self.external_devices[idx].read_word(&mut ctx, offset);
                            self.calls = Ghost(
                                self.calls@.push(DeviceCall::ReadWord { device: idx, offset, elapsed_time_us: handed, result: res }),
                            );
                            res
                        },
                        DeviceId::Fifo(k) => BusDevice::read_word(&mut self.fifos[k], &mut ctx, offset),
                    }
                };
                match result {
                    Ok(value) => value,
                    Err(_) => 0,
                }
            },
        }
    }

    /// Write a 32-bit word to the device owning `addr`.
    ///
    /// Writes to unmapped addresses, and writes a device refuses, are discarded.
    pub fn write_word(&mut self, addr: u32, value: u32)
        requires
            old(self).wf(),
            !spec_is_rtl_peripheral(addr),
        ensures
            final(self).wf(),
            final(self).map() == old(self).map(),
            final(self).elapsed() == old(self).elapsed(),
            final(self).fifo_count() == old(self).fifo_count(),
            !(spec_route(old(self).map(), addr) matches Some((DeviceId::External(_), _))) ==> final(self).device_calls()
                == old(self).device_calls(),
            spec_calls_carry(final(self).device_calls(), old(self).device_calls(), old(self).elapsed()),
            match spec_route(old(self).map(), addr) {
                None => final(self).mem() == old(self).mem() && final(self).tohost() == old(self).tohost() && final(self).other_fifos_same(old(self), -1),
                Some((DeviceId::Dram, off)) => final(self).mem() == dram_store_word(old(self).mem(), DRAM_BASE.wrapping_add(off), value)
                    && final(self).tohost() == old(self).tohost() && final(self).other_fifos_same(old(self), -1),
                Some((DeviceId::SimControl, off)) => final(self).mem() == old(self).mem() && final(self).other_fifos_same(old(self), -1)
                    && final(self).tohost() == (if off == 0 { Some(value) } else { old(self).tohost() }),
                Some((DeviceId::External(i), off)) => final(self).tohost() == old(self).tohost() && final(self).other_fifos_same(old(self), -1)
                    && spec_one_call_more(final(self).device_calls(), old(self).device_calls())
                    && (final(self).device_calls().last() matches DeviceCall::WriteWord { device: d, offset: o, value: x, elapsed_time_us: t, .. }
                        && d == i && o == off && x == value && t == old(self).elapsed()),
                Some((DeviceId::Fifo(_), _)) => final(self).mem() == old(self).mem() && final(self).tohost() == old(self).tohost() && final(self).other_fifos_same(old(self), -1),
            },
    {
        proof {
            self.lemma_route_in_bounds(addr);
        }
        match self.find_device_id(addr) {
            None => {},
            Some((id, offset)) => {
                let mut ctx = SystemContext::with_elapsed_time(&mut self.memory, self.elapsed_time_us);
                let _ = match id {
                    DeviceId::Dram => BusDevice::write_word(&mut self.dram, &mut ctx, offset, value),
                    DeviceId::SimControl => BusDevice::write_word(&mut self.sim_control, &mut ctx, offset, value),
                    DeviceId::External(idx) => {
                        let ghost handed = ctx.elapsed();
                        let res = self.external_devices[idx].write_word(&mut ctx, offset, value);
                        self.calls = Ghost(
                            self.calls@.push(
                                DeviceCall::WriteWord { device: idx, offset, value, elapsed_time_us: handed, result: res },
                            ),
                        );
                        res
                    },
                    DeviceId::Fifo(k) => BusDevice::write_word(&mut self.fifos[k], &mut ctx, offset, value),
                };
            },
        }
    }

    /// Read a 16-bit halfword from the device owning `addr`.
    ///
    /// Unmapped addresses and device errors read as zero.
    pub fn read_halfword(&mut self, addr: u32) -> (r: u16)
        requires
            old(self).wf(),
            !spec_is_rtl_peripheral(addr),
        ensures
            final(self).wf(),
            final(self).map() == old(self).map(),
            final(self).elapsed() == old(self).elapsed(),
            final(self).fifo_count() == old(self).fifo_count(),
            !(spec_route(old(self).map(), addr) matches Some((DeviceId::External(_), _))) ==> final(self).device_calls()
                == old(self).device_calls(),
            spec_calls_carry(final(self).device_calls(), old(self).device_calls(), old(self).elapsed()),
            match spec_route(old(self).map(), addr) {
                None => r == 0 && final(self).mem() == old(self).mem() && final(self).tohost() == old(self).tohost() && final(self).other_fifos_same(old(self), -1),
                Some((DeviceId::Dram, off)) => r == dram_half(old(self).mem(), DRAM_BASE.wrapping_add(off))
                    && final(self).mem() == old(self).mem() && final(self).tohost() == old(self).tohost() && final(self).other_fifos_same(old(self), -1),
                Some((DeviceId::SimControl, _)) => r == 0 && final(self).mem() == old(self).mem() && final(self).tohost() == old(self).tohost() && final(self).other_fifos_same(old(self), -1),
                Some((DeviceId::External(i), off)) => final(self).tohost() == old(self).tohost() && final(self).other_fifos_same(old(self), -1)
                    && spec_one_call_more(final(self).device_calls(), old(self).device_calls())
                    && (final(self).device_calls().last() matches DeviceCall::ReadHalfword { device: d, offset: o, elapsed_time_us: t, result: res }
                        && d == i && o == off && t == old(self).elapsed() && r == spec_half_or_zero(res)),
                Some((DeviceId::Fifo(_), _)) => r == 0 && final(self).mem() == old(self).mem() && final(self).tohost() == old(self).tohost() && final(self).other_fifos_same(old(self), -1),
            },
    {
        proof {
            self.lemma_route_in_bounds(addr);
        }
        match self.find_device_id(addr) {
            None => 0,
            Some((id, offset)) => {
                let result = {
                    let mut ctx = SystemContext::with_elapsed_time(&mut self.memory, self.elapsed_time_us);
                    match id {
                        DeviceId::Dram => BusDevice::read_halfword(&mut self.dram, &mut ctx, offset),
                        DeviceId::SimControl => BusDevice::read_halfword(&mut self.sim_control, &mut ctx, offset),
                        DeviceId::External(idx) => {
                            let ghost handed = ctx.elapsed();
                            let res = self.external_devices[idx].read_halfword(&mut ctx, offset);
                            self.calls = Ghost(
                                self.calls@.push(DeviceCall::ReadHalfword { device: idx, offset, elapsed_time_us: handed, result: res }),
                            );
                            res
                        },
                        DeviceId::Fifo(k) => BusDevice::read_halfword(&mut self.fifos[k], &mut ctx, offset),
                    }
                };
                match result {
                    Ok(value) => value,
                    Err(_) => 0,
                }
            },
        }
    }

    /// Write a 16-bit halfword to the device owning `addr`.
    ///
    /// Writes to unmapped addresses, and writes a device refuses, are discarded.
    pub fn write_halfword(&mut self, addr: u32, value: u16)
        requires
            old(self).wf(),
            !spec_is_rtl_peripheral(addr),
        ensures
            final(self).wf(),
            final(self).map() == old(self).map(),
            final(self).elapsed() == old(self).elapsed(),
            final(self).fifo_count() == old(self).fifo_count(),
            !(spec_route(old(self).map(), addr) matches Some((DeviceId::External(_), _))) ==> final(self).device_calls()
                == old(self).device_calls(),
            spec_calls_carry(final(self).device_calls(), old(self).device_calls(), old(self).elapsed()),
            match spec_route(old(self).map(), addr) {
                None => final(self).mem() == old(self).mem() && final(self).tohost() == old(self).tohost() && final(self).other_fifos_same(old(self), -1),
                Some((DeviceId::Dram, off)) => final(self).mem() == dram_store_half(old(self).mem(), DRAM_BASE.wrapping_add(off), value)
                    && final(self).tohost() == old(self).tohost() && final(self).other_fifos_same(old(self), -1),
                Some((DeviceId::SimControl, _)) => final(self).mem() == old(self).mem() && final(self).tohost() == old(self).tohost() && final(self).other_fifos_same(old(self), -1),
                Some((DeviceId::External(i), off)) => final(self).tohost() == old(self).tohost() && final(self).other_fifos_same(old(self), -1)
                    && spec_one_call_more(final(self).device_calls(), old(self).device_calls())
                    && (final(self).device_calls().last() matches DeviceCall::WriteHalfword { device: d, offset: o, value: x, elapsed_time_us: t, .. }
                        && d == i && o == off && x == value && t == old(self).elapsed()),
                Some((DeviceId::Fifo(_), _)) => final(self).mem() == old(self).mem() && final(self).tohost() == old(self).tohost() && final(self).other_fifos_same(old(self), -1),
            },
    {
        proof {
            self.lemma_route_in_bounds(addr);
        }
        match self.find_device_id(addr) {
            None => {},
            Some((id, offset)) => {
                let mut ctx = SystemContext::with_elapsed_time(&mut self.memory, self.elapsed_time_us);
                let _ = match id {
                    DeviceId::Dram => BusDevice::write_halfword(&mut self.dram, &mut ctx, offset, value),
                    DeviceId::SimControl => BusDevice::write_halfword(&mut self.sim_control, &mut ctx, offset, value),
                    DeviceId::External(idx) => {
                        let ghost handed = ctx.elapsed();
                        let res = self.external_devices[idx].write_halfword(&mut ctx, offset, value);
                        self.calls = Ghost(
                            self.calls@.push(
                                DeviceCall::WriteHalfword { device: idx, offset, value, elapsed_time_us: handed, result: res },
                            ),
                        );
                        res
                    },
                    DeviceId::Fifo(k) => BusDevice::write_halfword(&mut self.fifos[k], &mut ctx, offset, value),
                };
            },
        }
    }

    /// Read a byte from the device owning `addr`.
    ///
    /// Unmapped addresses and device errors read as zero. A byte read of an
    /// attached FIFO's DATA register takes the oldest byte waiting for the CPU.
    pub fn read_byte(&mut self, addr: u32) -> (r: u8)
        requires
            old(self).wf(),
            !spec_is_rtl_peripheral(addr),
        ensures
            final(self).wf(),
            final(self).map() == old(self).map(),
            final(self).elapsed() == old(self).elapsed(),
            final(self).fifo_count() == old(self).fifo_count(),
            !(spec_route(old(self).map(), addr) matches Some((DeviceId::External(_), _))) ==> final(self).device_calls()
                == old(self).device_calls(),
            spec_calls_carry(final(self).device_calls(), old(self).device_calls(), old(self).elapsed()),
            match spec_route(old(self).map(), addr) {
                None => r == 0 && final(self).mem() == old(self).mem() && final(self).tohost() == old(self).tohost() && final(self).other_fifos_same(old(self), -1),
                Some((DeviceId::Dram, off)) => r == dram_byte(old(self).mem(), DRAM_BASE.wrapping_add(off))
                    && final(self).mem() == old(self).mem() && final(self).tohost() == old(self).tohost() && final(self).other_fifos_same(old(self), -1),
                Some((DeviceId::SimControl, _)) => r == 0 && final(self).mem() == old(self).mem() && final(self).tohost() == old(self).tohost() && final(self).other_fifos_same(old(self), -1),
                Some((DeviceId::External(i), off)) => final(self).tohost() == old(self).tohost() && final(self).other_fifos_same(old(self), -1)
                    && spec_one_call_more(final(self).device_calls(), old(self).device_calls())
                    && (final(self).device_calls().last() matches DeviceCall::ReadByte { device: d, offset: o, elapsed_time_us: t, result: res }
                        && d == i && o == off && t == old(self).elapsed() && r == spec_byte_or_zero(res)),
                Some((DeviceId::Fifo(k), off)) => final(self).mem() == old(self).mem() && final(self).tohost() == old(self).tohost() && final(self).other_fifos_same(old(self), k as int)
                    && final(self).fifo_tx(k as int) == old(self).fifo_tx(k as int) && (if off == 0 {
                    r == spec_front_or_zero(old(self).fifo_rx(k as int)) && final(self).fifo_rx(k as int) == spec_pop(old(self).fifo_rx(k as int))
                } else {
                    r == 0 && final(self).fifo_rx(k as int) == old(self).fifo_rx(k as int)
                }),
            },
    {
        proof {
            self.lemma_route_in_bounds(addr);
        }
        match self.find_device_id(addr) {
            None => 0,
            Some((id, offset)) => {
                let result = {
                    let mut ctx = SystemContext::with_elapsed_time(&mut self.memory, self.elapsed_time_us);
                    match id {
                        DeviceId::Dram => BusDevice::read_byte(&mut self.dram, &mut ctx, offset),
                        DeviceId::SimControl => BusDevice::read_byte(&mut self.sim_control, &mut ctx, offset),
                        DeviceId::External(idx) => {
                            let ghost handed = ctx.elapsed();
                            let res = self.external_devices[idx].read_byte(&mut ctx, offset);
                            self.calls = Ghost(
                                self.calls@.push(DeviceCall::ReadByte { device: idx, offset, elapsed_time_us: handed, result: res }),
                            );
                            res
                        },
                        DeviceId::Fifo(k) => BusDevice::read_byte(&mut self.fifos[k], &mut ctx, offset),
                    }
                };
                match result {
                    Ok(value) => value,
                    Err(_) => 0,
                }
            },
        }
    }

    /// Write a byte to the device owning `addr`.
    ///
    /// Writes to unmapped addresses, and writes a device refuses, are
    /// discarded. A byte write of an attached FIFO's DATA register queues the
    /// byte for the host.
    pub fn write_byte(&mut self, addr: u32, value: u8)
        requires
            old(self).wf(),
            !spec_is_rtl_peripheral(addr),
        ensures
            final(self).wf(),
            final(self).map() == old(self).map(),
            final(self).elapsed() == old(self).elapsed(),
            final(self).fifo_count() == old(self).fifo_count(),
            !(spec_route(old(self).map(), addr) matches Some((DeviceId::External(_), _))) ==> final(self).device_calls()
                == old(self).device_calls(),
            spec_calls_carry(final(self).device_calls(), old(self).device_calls(), old(self).elapsed()),
            match spec_route(old(self).map(), addr) {
                None => final(self).mem() == old(self).mem() && final(self).tohost() == old(self).tohost() && final(self).other_fifos_same(old(self), -1),
                Some((DeviceId::Dram, off)) => final(self).mem() == dram_store_byte(old(self).mem(), DRAM_BASE.wrapping_add(off), value)
                    && final(self).tohost() == old(self).tohost() && final(self).other_fifos_same(old(self), -1),
                Some((DeviceId::SimControl, _)) => final(self).mem() == old(self).mem() && final(self).tohost() == old(self).tohost() && final(self).other_fifos_same(old(self), -1),
                Some((DeviceId::External(i), off)) => final(self).tohost() == old(self).tohost() && final(self).other_fifos_same(old(self), -1)
                    && spec_one_call_more(final(self).device_calls(), old(self).device_calls())
                    && (final(self).device_calls().last() matches DeviceCall::WriteByte { device: d, offset: o, value: x, elapsed_time_us: t, .. }
                        && d == i && o == off && x == value && t == old(self).elapsed()),
                Some((DeviceId::Fifo(k), off)) => final(self).mem() == old(self).mem() && final(self).tohost() == old(self).tohost() && final(self).other_fifos_same(old(self), k as int)
                    && final(self).fifo_rx(k as int) == old(self).fifo_rx(k as int)
                    && final(self).fifo_tx(k as int) == (if off == 0 {
                    old(self).fifo_tx(k as int).push(value)
                } else {
                    old(self).fifo_tx(k as int)
                }),
            },
    {
        proof {
            self.lemma_route_in_bounds(addr);
        }
        match self.find_device_id(addr) {
            None => {},
            Some((id, offset)) => {
                let mut ctx = SystemContext::with_elapsed_time(&mut self.memory, self.elapsed_time_us);
                let _ = match id {
                    DeviceId::Dram => BusDevice::write_byte(&mut self.dram, &mut ctx, offset, value),
                    DeviceId::SimControl => BusDevice::write_byte(&mut self.sim_control, &mut ctx, offset, value),
                    DeviceId::External(idx) => {
                        let ghost handed = ctx.elapsed();
                        let res = self.external_devices[idx].write_byte(&mut ctx, offset, value);
                        self.calls = Ghost(
                            self.calls@.push(
                                DeviceCall::WriteByte { device: idx, offset, value, elapsed_time_us: handed, result: res },
                            ),
                        );
                        res
                    },
                    DeviceId::Fifo(k) => BusDevice::write_byte(&mut self.fifos[k], &mut ctx, offset, value),
                };
            },
        }
    }

    /// Reset every device: the simulator control device drops any pending
    /// TOHOST value, each external device is reset in registration order,
    /// then each attached FIFO drops the bytes waiting for the CPU (bytes
    /// already sent to the host stay for it to collect).
    pub fn reset_all_devices(&mut self)
        requires
            old(self).wf(),
        ensures
            final(self).wf(),
            final(self).map() == old(self).map(),
            final(self).elapsed() == old(self).elapsed(),
            final(self).tohost() == None::<u32>,
            final(self).fifo_count() == old(self).fifo_count(),
            forall|k: int|
                0 <= k < final(self).fifo_count() ==> #[trigger] final(self).fifo_rx(k) == Seq::<u8>::empty()
                    && final(self).fifo_tx(k) == old(self).fifo_tx(k),
            old(self).external_count() == 0 ==> final(self).mem() == old(self).mem(),
            final(self).external_count() == old(self).external_count(),
            final(self).device_calls() == old(self).device_calls() + spec_sweep(
                old(self).external_count(),
                old(self).elapsed(),
                true,
            ),
            spec_calls_carry(final(self).device_calls(), old(self).device_calls(), old(self).elapsed()),
    {
        {
            let mut ctx = SystemContext::with_elapsed_time(&mut self.memory, self.elapsed_time_us);
            self.dram.reset(&mut ctx);
            self.sim_control.reset(&mut ctx);
        }
        let n = self.external_devices.len();
        let mut i: usize = 0;
        while i < n
            invariant
                n == self.external_devices@.len(),
                i <= n,
                self.sim_control@ == None::<u32>,
                self.dram@ == DRAM_BASE,
                n == 0 ==> self.memory@ == old(self).memory@,
                self.memory_map@ == old(self).memory_map@,
                self.elapsed_time_us == old(self).elapsed_time_us,
                self.fifos@ == old(self).fifos@,
                self.calls@ == old(self).calls@ + spec_sweep(i as nat, self.elapsed_time_us, true),
            decreases n - i,
        {
            let ghost before = self.external_devices@;
            let mut ctx = SystemContext::with_elapsed_time(&mut self.memory, self.elapsed_time_us);
            let ghost handed = ctx.elapsed();
            self.external_devices[i].reset(&mut ctx);
            self.calls = Ghost(self.calls@.push(DeviceCall::Reset { device: i, elapsed_time_us: handed }));
            proof {
                vstd::seq::axiom_seq_update_len(before, i as int, self.external_devices@[i as int]);
                assert(spec_sweep((i + 1) as nat, self.elapsed_time_us, true) =~= spec_sweep(
                    i as nat,
                    self.elapsed_time_us,
                    true,
                ).push(DeviceCall::Reset { device: i, elapsed_time_us: handed }));
                assert(self.calls@ =~= old(self).calls@ + spec_sweep((i + 1) as nat, self.elapsed_time_us, true));
            }
            i = i + 1;
        }
        let nf = self.fifos.len();
        let mut k: usize = 0;
        while k < nf
            invariant
                nf == self.fifos@.len(),
                nf == old(self).fifos@.len(),
                k <= nf,
                n == self.external_devices@.len(),
                self.sim_control@ == None::<u32>,
                self.dram@ == DRAM_BASE,
                n == 0 ==> self.memory@ == old(self).memory@,
                self.memory_map@ == old(self).memory_map@,
                self.elapsed_time_us == old(self).elapsed_time_us,
                forall|j: int| 0 <= j < k ==> #[trigger] self.fifos@[j].rx@ == Seq::<u8>::empty(),
                forall|j: int| 0 <= j < nf ==> #[trigger] self.fifos@[j].tx@ == old(self).fifos@[j].tx@,
                forall|j: int| k <= j < nf ==> #[trigger] self.fifos@[j] == old(self).fifos@[j],
                self.calls@ == old(self).calls@ + spec_sweep(n as nat, self.elapsed_time_us, true),
            decreases nf - k,
        {
            let ghost before = self.fifos@;
            assert(forall|j: int| 0 <= j < nf ==> #[trigger] before[j].tx@ == old(self).fifos@[j].tx@);
            let mut ctx = SystemContext::with_elapsed_time(&mut self.memory, self.elapsed_time_us);
            self.fifos[k].reset(&mut ctx);
            assert(self.fifos@ == before.update(k as int, self.fifos@[k as int]));
            assert(self.fifos@[k as int].tx@ == before[k as int].tx@);
            assert forall|j: int| 0 <= j < nf implies #[trigger] self.fifos@[j].tx@ == old(self).fifos@[j].tx@ by {
                assert(before[j].tx@ == old(self).fifos@[j].tx@);
                if j != k {
                    assert(self.fifos@[j] == before[j]);
                }
            }
            k = k + 1;
        }
    }

    /// Advance every device by one clock cycle: DRAM, the simulator control
    /// device and FIFOs do nothing, external devices tick in registration
    /// order. What an external device does on a tick is up to its own
    /// implementation, so the contract states only what the tick keeps.
    pub fn clock_cycle_all_devices(&mut self)
        requires
            old(self).wf(),
        ensures
            final(self).wf(),
            final(self).map() == old(self).map(),
            final(self).elapsed() == old(self).elapsed(),
            final(self).tohost() == old(self).tohost(),
            final(self).other_fifos_same(old(self), -1),
            final(self).external_count() == old(self).external_count(),
            final(self).device_calls() == old(self).device_calls() + spec_sweep(
                old(self).external_count(),
                old(self).elapsed(),
                false,
            ),
            old(self).external_count() == 0 ==> final(self).mem() == old(self).mem(),
            spec_calls_carry(final(self).device_calls(), old(self).device_calls(), old(self).elapsed()),
    {
        {
            let mut ctx = SystemContext::with_elapsed_time(&mut self.memory, self.elapsed_time_us);
            self.dram.clock_cycle(&mut ctx);
            self.sim_control.clock_cycle(&mut ctx);
        }
        let n = self.external_devices.len();
        let mut i: usize = 0;
        while i < n
            invariant
                n == self.external_devices@.len(),
                i <= n,
                self.sim_control@ == old(self).sim_control@,
                self.dram@ == DRAM_BASE,
                self.memory_map@ == old(self).memory_map@,
                self.elapsed_time_us == old(self).elapsed_time_us,
                self.fifos@ == old(self).fifos@,
                n == 0 ==> self.memory@ == old(self).memory@,
                self.calls@ == old(self).calls@ + spec_sweep(i as nat, self.elapsed_time_us, false),
            decreases n - i,
        {
            let ghost before = self.external_devices@;
            let mut ctx = SystemContext::with_elapsed_time(&mut self.memory, self.elapsed_time_us);
            let ghost handed = ctx.elapsed();
            self.external_devices[i].clock_cycle(&mut ctx);
            self.calls = Ghost(self.calls@.push(DeviceCall::ClockCycle { device: i, elapsed_time_us: handed }));
            proof {
                vstd::seq::axiom_seq_update_len(before, i as int, self.external_devices@[i as int]);
                assert(spec_sweep((i + 1) as nat, self.elapsed_time_us, false) =~= spec_sweep(
                    i as nat,
                    self.elapsed_time_us,
                    false,
                ).push(DeviceCall::ClockCycle { device: i, elapsed_time_us: handed }));
                assert(self.calls@ =~= old(self).calls@ + spec_sweep((i + 1) as nat, self.elapsed_time_us, false));
            }
            i = i + 1;
        }
    }
}

impl Default for SystemBus {
    fn default() -> (b: Self)
        ensures
            b.wf(),
            b.mem() == Map::<u32, u8>::empty(),
            b.tohost() == None::<u32>,
            b.map() == spec_initial_map(),
            b.elapsed() == 0,
    {
        Self::new()
    }
}

/// On a consistent bus every DRAM address except the last byte of the
/// address space is routed to DRAM, at its offset from `DRAM_BASE`; the
/// DRAM range's end saturates at `0xFFFF_FFFF`, which stays unmapped.
pub proof fn lemma_dram_addresses_route_to_dram(bus: &SystemBus, addr: u32)
    requires
        bus.wf(),
        DRAM_BASE <= addr < 0xFFFF_FFFF,
    ensures
        spec_route(bus.map(), addr) == Some((DeviceId::Dram, (addr - DRAM_BASE) as u32)),
        DRAM_BASE.wrapping_add((addr - DRAM_BASE) as u32) == addr,
{
    lemma_route_to_containing_entry(bus.map(), addr, 1);
}

/// On a consistent bus the TOHOST register is routed to the simulator
/// control device at offset zero.
pub proof fn lemma_tohost_routes_to_sim_control(bus: &SystemBus)
    requires
        bus.wf(),
    ensures
        spec_route(bus.map(), SIM_CONTROL_BASE) == Some((DeviceId::SimControl, 0u32)),
{
    lemma_route_to_containing_entry(bus.map(), SIM_CONTROL_BASE, 0);
}

/// On a consistent bus, an address inside the range of any mapped device
/// (in particular a registered external device) is routed to that device
/// at its offset from the device's base.
pub proof fn lemma_mapped_range_routes_to_its_device(bus: &SystemBus, k: int, addr: u32)
    requires
        bus.wf(),
        0 <= k < bus.map().len(),
        bus.map()[k].base <= addr < bus.map()[k].end,
    ensures
        spec_route(bus.map(), addr) == Some((bus.map()[k].id, (addr - bus.map()[k].base) as u32)),
{
    lemma_route_to_containing_entry(bus.map(), addr, k);
}

/// A word written to DRAM through the bus reads back unchanged: the write
/// and the read are both routed to DRAM, and memory then holds the word.
pub proof fn lemma_dram_word_round_trip(bus: &SystemBus, addr: u32, value: u32)
    requires
        bus.wf(),
        spec_valid_dram_range(addr, 4),
    ensures
        spec_route(bus.map(), addr) == Some((DeviceId::Dram, (addr - DRAM_BASE) as u32)),
        dram_word(dram_store_word(bus.mem(), addr, value), addr) == value,
{
    lemma_dram_addresses_route_to_dram(bus, addr);
    crate::memory::lemma_word_read_after_write(bus.mem(), addr, value);
}

/// A halfword written to DRAM through the bus reads back unchanged.
pub proof fn lemma_dram_half_round_trip(bus: &SystemBus, addr: u32, value: u16)
    requires
        bus.wf(),
        spec_valid_dram_range(addr, 2),
    ensures
        spec_route(bus.map(), addr) == Some((DeviceId::Dram, (addr - DRAM_BASE) as u32)),
        dram_half(dram_store_half(bus.mem(), addr, value), addr) == value,
{
    lemma_dram_addresses_route_to_dram(bus, addr);
    crate::memory::lemma_half_read_after_write(bus.mem(), addr, value);
}

/// A byte written to DRAM through the bus reads back unchanged.
pub proof fn lemma_dram_byte_round_trip(bus: &SystemBus, addr: u32, value: u8)
    requires
        bus.wf(),
        spec_valid_dram_range(addr, 1),
        addr < 0xFFFF_FFFF,
    ensures
        spec_route(bus.map(), addr) == Some((DeviceId::Dram, (addr - DRAM_BASE) as u32)),
        dram_byte(dram_store_byte(bus.mem(), addr, value), addr) == value,
{
    lemma_dram_addresses_route_to_dram(bus, addr);
}

/// On a consistent bus every mapped range is non-empty and no two mapped
/// ranges overlap.
pub proof fn lemma_map_disjoint(bus: &SystemBus)
    requires
        bus.wf(),
    ensures
        spec_map_disjoint(bus.map()),
{
}

/// An operation that calls no device leaves the log as it was, which
/// trivially hands every new call the current elapsed time.
pub proof fn lemma_no_calls_carry(calls: Seq<DeviceCall>, t: u64)
    ensures
        spec_calls_carry(calls, calls, t),
{
}

/// Elapsed time over a run of bus operations: when every call made in one
/// stretch of operations, and every call made in the stretch after it, was
/// handed `t`, every call since the start of the first stretch was.
/// Together with `update_elapsed_time` (which sets the time) and the other
/// operations (which keep it and hand it to each call they make), this
/// gives that every device call up to the next update is handed the time
/// last set.
pub proof fn lemma_calls_carry_compose(c0: Seq<DeviceCall>, c1: Seq<DeviceCall>, c2: Seq<DeviceCall>, t: u64)
    requires
        spec_calls_carry(c1, c0, t),
        spec_calls_carry(c2, c1, t),
    ensures
        spec_calls_carry(c2, c0, t),
{
    assert forall|i: int| 0 <= i < c0.len() implies c2[i] == c0[i] by {
        assert(c2.subrange(0, c1.len() as int)[i] == c1[i]);
        assert(c1.subrange(0, c0.len() as int)[i] == c0[i]);
    }
    assert forall|k: int| c0.len() <= k < c2.len() implies call_elapsed(#[trigger] c2[k]) == t by {
        if k < c1.len() {
            assert(c2.subrange(0, c1.len() as int)[k] == c1[k]);
        }
    }
}

} // verus!
