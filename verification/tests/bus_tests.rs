use cpu_sim::bus::SystemBus;
use cpu_sim::bus_device::{BusDevice, BusDeviceError, RegistrationError, SystemContext};
use cpu_sim::fifo::{Fifo, FifoDataSource};
use cpu_sim::memory_map::SIM_CONTROL_BASE;
use std::collections::HashMap;

/// Mock device for testing device registration
struct MockDevice {
    size: u32,
    name: String,
    registers: HashMap<u32, u32>,
}

impl MockDevice {
    fn new(size: u32, name: &str) -> Self {
        MockDevice {
            size,
            name: name.to_string(),
            registers: HashMap::new(),
        }
    }
}

impl BusDevice for MockDevice {
    fn read_word(&mut self, _ctx: &mut SystemContext, offset: u32) -> Result<u32, BusDeviceError> {
        if offset >= self.size || offset % 4 != 0 {
            return Err(BusDeviceError::InvalidAddress { offset });
        }
        Ok(*self.registers.get(&offset).unwrap_or(&0))
    }

    fn write_word(
        &mut self,
        _ctx: &mut SystemContext,
        offset: u32,
        value: u32,
    ) -> Result<(), BusDeviceError> {
        if offset >= self.size || offset % 4 != 0 {
            return Err(BusDeviceError::InvalidAddress { offset });
        }
        self.registers.insert(offset, value);
        Ok(())
    }

    fn spec_size(&self) -> u32 {
        self.size
    }

    fn size(&self) -> u32 {
        self.size
    }

    fn name(&self) -> &str {
        &self.name
    }

    fn reset(&mut self, _ctx: &mut SystemContext) {
        // MockDevice has no persistent state to reset
    }
}

/// Mock device with reset and clock_cycle tracking for testing lifecycle hooks
struct StatefulMockDevice {
    size: u32,
    name: String,
    reset_count: u32,
    clock_cycle_count: u32,
    registers: HashMap<u32, u32>,
}

impl StatefulMockDevice {
    fn new(size: u32, name: &str) -> Self {
        StatefulMockDevice {
            size,
            name: name.to_string(),
            reset_count: 0,
            clock_cycle_count: 0,
            registers: HashMap::new(),
        }
    }
}

impl BusDevice for StatefulMockDevice {
    fn read_word(&mut self, _ctx: &mut SystemContext, offset: u32) -> Result<u32, BusDeviceError> {
        if offset >= self.size || offset % 4 != 0 {
            return Err(BusDeviceError::InvalidAddress { offset });
        }
        // Special offsets to read internal state
        match offset {
            0x0 => Ok(self.reset_count),
            0x4 => Ok(self.clock_cycle_count),
            _ => Ok(*self.registers.get(&offset).unwrap_or(&0)),
        }
    }

    fn write_word(
        &mut self,
        _ctx: &mut SystemContext,
        offset: u32,
        value: u32,
    ) -> Result<(), BusDeviceError> {
        if offset >= self.size || offset % 4 != 0 {
            return Err(BusDeviceError::InvalidAddress { offset });
        }
        self.registers.insert(offset, value);
        Ok(())
    }

    fn reset(&mut self, _ctx: &mut SystemContext) {
        self.reset_count += 1;
        self.registers.clear();
    }

    fn clock_cycle(&mut self, _ctx: &mut SystemContext) {
        self.clock_cycle_count += 1;
    }

    fn spec_size(&self) -> u32 {
        self.size
    }

    fn size(&self) -> u32 {
        self.size
    }

    fn name(&self) -> &str {
        &self.name
    }
}

#[test]
fn test_device_registration_success() {
    let mut bus = SystemBus::new();

    // Register device at 0x6000_0000
    let dev = Box::new(MockDevice::new(256, "TestDevice"));
    let result = bus.register_device(0x6000_0000, dev);
    assert!(result.is_ok());

    // Verify device is registered
    let devices = bus.registered_devices();
    assert_eq!(devices.len(), 3); // DRAM, SimControl, TestDevice

    // Find our test device
    let test_device = devices.iter().find(|(_, _, name)| name == "TestDevice");
    assert!(test_device.is_some());
    let (base, size, _) = test_device.unwrap();
    assert_eq!(*base, 0x6000_0000);
    assert_eq!(*size, 256);
}

#[test]
fn test_device_registration_overlap_error() {
    let mut bus = SystemBus::new();

    let dev1 = Box::new(MockDevice::new(256, "Device1"));
    bus.register_device(0x6000_0000, dev1).unwrap();

    let dev2 = Box::new(MockDevice::new(256, "Device2"));
    let result = bus.register_device(0x6000_0080, dev2);

    assert!(matches!(
        result,
        Err(RegistrationError::AddressOverlap { .. })
    ));

    if let Err(RegistrationError::AddressOverlap {
        new_base,
        new_end,
        existing_base,
        existing_end,
        existing_name,
    }) = result
    {
        assert_eq!(new_base, 0x6000_0080);
        assert_eq!(new_end, 0x6000_0180);
        assert_eq!(existing_base, 0x6000_0000);
        assert_eq!(existing_end, 0x6000_0100);
        assert_eq!(existing_name, "Device1");
    }
}

#[test]
fn test_device_registration_dram_range_protected() {
    let mut bus = SystemBus::new();

    let dev = Box::new(MockDevice::new(256, "TestDevice"));
    let result = bus.register_device(0x8000_0000, dev);

    assert!(matches!(
        result,
        Err(RegistrationError::AddressOverlap { .. })
    ));

    if let Err(RegistrationError::AddressOverlap { existing_name, .. }) = result {
        assert_eq!(existing_name, "DRAM");
    }
}

#[test]
fn test_device_registration_sim_control_range_protected() {
    let mut bus = SystemBus::new();

    let dev = Box::new(MockDevice::new(4, "TestDevice"));
    let result = bus.register_device(SIM_CONTROL_BASE, dev);

    assert!(matches!(
        result,
        Err(RegistrationError::AddressOverlap { .. })
    ));

    if let Err(RegistrationError::AddressOverlap { existing_name, .. }) = result {
        assert_eq!(existing_name, "SimControl");
    }
}

#[test]
fn test_device_registration_lower_half_range_allowed() {
    let mut bus = SystemBus::new();

    let dev = Box::new(MockDevice::new(256, "TestDevice"));
    let result = bus.register_device(0x6000_0000, dev);
    assert!(result.is_ok());
}

#[test]
fn test_device_registration_adjacent_devices_ok() {
    let mut bus = SystemBus::new();

    let dev1 = Box::new(MockDevice::new(256, "Device1"));
    bus.register_device(0x6000_0000, dev1).unwrap();

    let dev2 = Box::new(MockDevice::new(256, "Device2"));
    let result = bus.register_device(0x6000_0100, dev2);
    assert!(result.is_ok());
}

#[test]
fn test_device_registration_invalid_alignment() {
    let mut bus = SystemBus::new();

    let dev = Box::new(MockDevice::new(5, "TestDevice"));
    let result = bus.register_device(0x6000_0000, dev);

    assert!(matches!(
        result,
        Err(RegistrationError::InvalidAlignment { size: 5 })
    ));
}

#[test]
fn test_device_registration_invalid_base_alignment() {
    let mut bus = SystemBus::new();

    let dev = Box::new(MockDevice::new(256, "TestDevice"));
    let result = bus.register_device(0x6000_0001, dev);

    assert!(matches!(
        result,
        Err(RegistrationError::InvalidBaseAlignment {
            base_addr: 0x6000_0001
        })
    ));
}

#[test]
fn test_device_registration_zero_size() {
    let mut bus = SystemBus::new();

    let dev = Box::new(MockDevice::new(0, "TestDevice"));
    let result = bus.register_device(0x6000_0000, dev);

    assert!(matches!(result, Err(RegistrationError::ZeroSize)));
}

#[test]
fn test_device_read_write_routing() {
    let mut bus = SystemBus::new();

    let dev = Box::new(MockDevice::new(256, "TestDevice"));
    bus.register_device(0x6000_0000, dev).unwrap();

    bus.write_word(0x6000_0000, 0x12345678);
    let value = bus.read_word(0x6000_0000);
    assert_eq!(value, 0x12345678);

    bus.write_word(0x6000_0004, 0xABCDEF00);
    let value = bus.read_word(0x6000_0004);
    assert_eq!(value, 0xABCDEF00);

    let value = bus.read_word(0x6000_0000);
    assert_eq!(value, 0x12345678);
}

#[test]
fn test_multiple_devices_independent() {
    let mut bus = SystemBus::new();

    let dev1 = Box::new(MockDevice::new(256, "Device1"));
    bus.register_device(0x6000_0000, dev1).unwrap();

    let dev2 = Box::new(MockDevice::new(256, "Device2"));
    bus.register_device(0x6000_0100, dev2).unwrap();

    bus.write_word(0x6000_0000, 0x11111111);
    bus.write_word(0x6000_0100, 0x22222222);

    assert_eq!(bus.read_word(0x6000_0000), 0x11111111);
    assert_eq!(bus.read_word(0x6000_0100), 0x22222222);
}

#[test]
fn test_reset_all_devices_called() {
    let mut bus = SystemBus::new();

    let dev = Box::new(StatefulMockDevice::new(256, "StatefulDevice"));
    bus.register_device(0x6000_0000, dev).unwrap();

    assert_eq!(bus.read_word(0x6000_0000), 0);
    bus.reset_all_devices();
    assert_eq!(bus.read_word(0x6000_0000), 1);
    bus.reset_all_devices();
    assert_eq!(bus.read_word(0x6000_0000), 2);
}

#[test]
fn test_clock_cycle_all_devices_called() {
    let mut bus = SystemBus::new();

    let dev = Box::new(StatefulMockDevice::new(256, "StatefulDevice"));
    bus.register_device(0x6000_0000, dev).unwrap();

    assert_eq!(bus.read_word(0x6000_0004), 0);
    bus.clock_cycle_all_devices();
    assert_eq!(bus.read_word(0x6000_0004), 1);
    for _ in 0..10 {
        bus.clock_cycle_all_devices();
    }
    assert_eq!(bus.read_word(0x6000_0004), 11);
}

#[test]
fn test_reset_clears_device_state() {
    let mut bus = SystemBus::new();

    let dev = Box::new(StatefulMockDevice::new(256, "StatefulDevice"));
    bus.register_device(0x6000_0000, dev).unwrap();

    bus.write_word(0x6000_0008, 0x12345678);
    bus.write_word(0x6000_000C, 0xABCDEF00);

    assert_eq!(bus.read_word(0x6000_0008), 0x12345678);
    assert_eq!(bus.read_word(0x6000_000C), 0xABCDEF00);

    bus.reset_all_devices();

    assert_eq!(bus.read_word(0x6000_0008), 0);
    assert_eq!(bus.read_word(0x6000_000C), 0);
    assert_eq!(bus.read_word(0x6000_0000), 1);
}

#[test]
fn test_multiple_stateful_devices_independent() {
    let mut bus = SystemBus::new();

    let dev1 = Box::new(StatefulMockDevice::new(256, "Device1"));
    bus.register_device(0x6000_0000, dev1).unwrap();

    let dev2 = Box::new(StatefulMockDevice::new(256, "Device2"));
    bus.register_device(0x6000_0100, dev2).unwrap();

    for _ in 0..5 {
        bus.clock_cycle_all_devices();
    }

    assert_eq!(bus.read_word(0x6000_0004), 5);
    assert_eq!(bus.read_word(0x6000_0104), 5);

    bus.reset_all_devices();

    assert_eq!(bus.read_word(0x6000_0000), 1);
    assert_eq!(bus.read_word(0x6000_0100), 1);

    assert_eq!(bus.read_word(0x6000_0004), 5);
    assert_eq!(bus.read_word(0x6000_0104), 5);
}

#[test]
fn test_device_with_default_reset_and_clock_cycle() {
    let mut bus = SystemBus::new();

    let dev = Box::new(MockDevice::new(256, "RegularDevice"));
    bus.register_device(0x6000_0000, dev).unwrap();

    bus.write_word(0x6000_0000, 0x12345678);
    bus.reset_all_devices();
    assert_eq!(bus.read_word(0x6000_0000), 0x12345678);
    bus.clock_cycle_all_devices();
    assert_eq!(bus.read_word(0x6000_0000), 0x12345678);
}

// Further scenarios of the library's own contracts.

#[test]
fn test_bus_dram_word_round_trip() {
    let mut bus = SystemBus::new();
    bus.write_word(0x8000_0010, 0xDEAD_BEEF);
    assert_eq!(bus.read_word(0x8000_0010), 0xDEAD_BEEF);
    assert_eq!(bus.read_halfword(0x8000_0010), 0xBEEF);
    assert_eq!(bus.read_halfword(0x8000_0012), 0xDEAD);
    assert_eq!(bus.read_byte(0x8000_0013), 0xDE);
}

#[test]
fn test_bus_halfword_and_byte_writes() {
    let mut bus = SystemBus::new();
    bus.write_halfword(0x8000_0100, 0x1234);
    bus.write_byte(0x8000_0102, 0x56);
    assert_eq!(bus.read_word(0x8000_0100), 0x0056_1234);
}

#[test]
fn test_bus_unmapped_address_reads_zero() {
    let mut bus = SystemBus::new();
    bus.write_word(0x6800_0000, 0x1234_5678);
    assert_eq!(bus.read_word(0x6800_0000), 0);
}

#[test]
fn test_bus_tohost_and_acknowledge() {
    let mut bus = SystemBus::new();
    assert!(!bus.sim_control.is_termination_pending());
    bus.write_word(SIM_CONTROL_BASE, 0x2a);
    assert!(bus.sim_control.is_termination_pending());
    assert_eq!(bus.sim_control.acknowledge_termination(), Some(0x2a));
    assert_eq!(bus.sim_control.acknowledge_termination(), None);
}

#[test]
fn test_bus_is_rtl_peripheral() {
    let bus = SystemBus::new();
    assert!(bus.is_rtl_peripheral(0x1000_0000));
    assert!(bus.is_rtl_peripheral(0x5FFF_FFFF));
    assert!(!bus.is_rtl_peripheral(0x6000_0000));
    assert!(!bus.is_rtl_peripheral(0x8000_0000));
}

#[test]
fn test_bus_reset_clears_pending_tohost() {
    let mut bus = SystemBus::new();
    bus.write_word(SIM_CONTROL_BASE, 1);
    bus.reset_all_devices();
    assert!(!bus.sim_control.is_termination_pending());
}

#[test]
fn test_bus_fifo_host_to_cpu_and_back() {
    let mut bus = SystemBus::new();
    let mut source = FifoDataSource::new();
    source.write_byte(0x41);
    assert!(bus.register_fifo(0x6000_0000, Fifo::new_with_callback(source)).is_ok());
    // STATUS: RX_VALID and TX_READY.
    assert_eq!(bus.read_word(0x6000_0004), 3);
    bus.fifo_push_rx(0, 0x42);
    assert_eq!(bus.read_byte(0x6000_0000), 0x41);
    assert_eq!(bus.read_byte(0x6000_0000), 0x42);
    assert_eq!(bus.read_byte(0x6000_0000), 0);
    assert_eq!(bus.read_word(0x6000_0004), 2);
    bus.write_byte(0x6000_0000, 0x7a);
    bus.write_byte(0x6000_0000, 0x7b);
    assert_eq!(bus.fifo_pop_tx(0), Some(0x7a));
    assert_eq!(bus.fifo_pop_tx(0), Some(0x7b));
    assert_eq!(bus.fifo_pop_tx(0), None);
}

#[test]
fn test_bus_fifo_registration_rules() {
    let mut bus = SystemBus::new();
    assert!(bus.register_fifo(0x6000_0000, Fifo::new()).is_ok());
    let devices = bus.registered_devices();
    assert_eq!(devices.last().unwrap(), &(0x6000_0000, 8, "FIFO".to_string()));
    match bus.register_fifo(0x6000_0004, Fifo::new()) {
        Err(RegistrationError::AddressOverlap { existing_base, existing_name, .. }) => {
            assert_eq!(existing_base, 0x6000_0000);
            assert_eq!(existing_name, "FIFO");
        }
        other => panic!("expected overlap, got {:?}", other),
    }
    assert_eq!(
        bus.register_fifo(0x6000_0102, Fifo::new()),
        Err(RegistrationError::InvalidBaseAlignment { base_addr: 0x6000_0102 })
    );
}

#[test]
fn test_bus_reset_drops_fifo_input_keeps_output() {
    let mut bus = SystemBus::new();
    assert!(bus.register_fifo(0x6000_0000, Fifo::new()).is_ok());
    bus.fifo_push_rx(0, 1);
    bus.write_byte(0x6000_0000, 9);
    bus.reset_all_devices();
    assert_eq!(bus.read_byte(0x6000_0000), 0);
    assert_eq!(bus.fifo_pop_tx(0), Some(9));
}

#[test]
fn test_bus_acknowledge_termination_takes_pending_value() {
    let mut bus = SystemBus::new();
    assert_eq!(bus.acknowledge_termination(), None);
    bus.write_word(SIM_CONTROL_BASE, 0x55);
    assert_eq!(bus.acknowledge_termination(), Some(0x55));
    assert_eq!(bus.acknowledge_termination(), None);
}
