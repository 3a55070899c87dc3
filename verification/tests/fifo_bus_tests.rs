use cpu_sim::bus_device::{BusDevice, BusDeviceError, RegistrationError, SystemContext};
use cpu_sim::fifo_bus::{SystemBus, FIFO_BASE, SIM_CONTROL_BASE};
use std::collections::HashMap;

/// Mock device for testing device registration
struct MockDevice {
    size: u32,
    name: String,
    registers: HashMap<u32, u32>,
}

impl MockDevice {
    fn new(size: u32, name: &str) -> Self {
        MockDevice {
            size,
            name: name.to_string(),
            registers: HashMap::new(),
        }
    }
}

impl BusDevice for MockDevice {
    fn read_word(&mut self, _ctx: &mut SystemContext, offset: u32) -> Result<u32, BusDeviceError> {
        if offset >= self.size || offset % 4 != 0 {
            return Err(BusDeviceError::InvalidAddress { offset });
        }
        Ok(*self.registers.get(&offset).unwrap_or(&0))
    }

    fn write_word(
        &mut self,
        _ctx: &mut SystemContext,
        offset: u32,
        value: u32,
    ) -> Result<(), BusDeviceError> {
        if offset >= self.size || offset % 4 != 0 {
            return Err(BusDeviceError::InvalidAddress { offset });
        }
        self.registers.insert(offset, value);
        Ok(())
    }

    fn spec_size(&self) -> u32 {
        self.size
    }

    fn size(&self) -> u32 {
        self.size
    }

    fn name(&self) -> &str {
        &self.name
    }
}

#[test]
fn bus_tests_test_device_registration_success() {
    let mut bus = SystemBus::new();

    let dev = Box::new(MockDevice::new(256, "TestDevice"));
    let result = bus.register_device(0x5000_0000, dev);
    assert!(result.is_ok());

    let devices = bus.registered_devices();
    assert_eq!(devices.len(), 4); // DRAM, FIFO, SimControl, TestDevice

    let test_device = devices.iter().find(|(_, _, name)| name == "TestDevice");
    assert!(test_device.is_some());
    let (base, size, _) = test_device.unwrap();
    assert_eq!(*base, 0x5000_0000);
    assert_eq!(*size, 256);
}

#[test]
fn bus_tests_test_device_registration_overlap_error() {
    let mut bus = SystemBus::new();

    let dev1 = Box::new(MockDevice::new(256, "Device1"));
    bus.register_device(0x5000_0000, dev1).unwrap();

    let dev2 = Box::new(MockDevice::new(256, "Device2"));
    let result = bus.register_device(0x5000_0080, dev2);

    assert!(matches!(
        result,
        Err(RegistrationError::AddressOverlap { .. })
    ));

    if let Err(RegistrationError::AddressOverlap {
        new_base,
        new_end,
        existing_base,
        existing_end,
        existing_name,
    }) = result
    {
        assert_eq!(new_base, 0x5000_0080);
        assert_eq!(new_end, 0x5000_0180);
        assert_eq!(existing_base, 0x5000_0000);
        assert_eq!(existing_end, 0x5000_0100);
        assert_eq!(existing_name, "Device1");
    }
}

#[test]
fn test_device_registration_fifo_range_protected() {
    let mut bus = SystemBus::new();

    let dev = Box::new(MockDevice::new(8, "TestDevice"));
    let result = bus.register_device(0x4000_0000, dev);

    assert!(matches!(
        result,
        Err(RegistrationError::AddressOverlap { .. })
    ));

    if let Err(RegistrationError::AddressOverlap { existing_name, .. }) = result {
        assert_eq!(existing_name, "FIFO");
    }
}

#[test]
fn bus_tests_test_device_registration_sim_control_range_protected() {
    let mut bus = SystemBus::new();

    let dev = Box::new(MockDevice::new(4, "TestDevice"));
    let result = bus.register_device(0x1000_0000, dev);

    assert!(matches!(
        result,
        Err(RegistrationError::AddressOverlap { .. })
    ));

    if let Err(RegistrationError::AddressOverlap { existing_name, .. }) = result {
        assert_eq!(existing_name, "SimControl");
    }
}

#[test]
fn bus_tests_test_device_registration_dram_range_protected() {
    let mut bus = SystemBus::new();

    let dev = Box::new(MockDevice::new(256, "TestDevice"));
    let result = bus.register_device(0x8000_0000, dev);

    assert!(matches!(
        result,
        Err(RegistrationError::AddressOverlap { .. })
    ));

    if let Err(RegistrationError::AddressOverlap { existing_name, .. }) = result {
        assert_eq!(existing_name, "DRAM");
    }
}

#[test]
fn bus_tests_test_device_registration_adjacent_devices_ok() {
    let mut bus = SystemBus::new();

    let dev1 = Box::new(MockDevice::new(256, "Device1"));
    bus.register_device(0x5000_0000, dev1).unwrap();

    let dev2 = Box::new(MockDevice::new(256, "Device2"));
    let result = bus.register_device(0x5000_0100, dev2);
    assert!(result.is_ok());
}

#[test]
fn bus_tests_test_device_registration_invalid_alignment() {
    let mut bus = SystemBus::new();

    let dev = Box::new(MockDevice::new(5, "TestDevice"));
    let result = bus.register_device(0x5000_0000, dev);

    assert!(matches!(
        result,
        Err(RegistrationError::InvalidAlignment { size: 5 })
    ));
}

#[test]
fn bus_tests_test_device_registration_invalid_base_alignment() {
    let mut bus = SystemBus::new();

    let dev = Box::new(MockDevice::new(256, "TestDevice"));
    let result = bus.register_device(0x5000_0001, dev);

    assert!(matches!(
        result,
        Err(RegistrationError::InvalidBaseAlignment {
            base_addr: 0x5000_0001
        })
    ));
}

#[test]
fn bus_tests_test_device_registration_zero_size() {
    let mut bus = SystemBus::new();

    let dev = Box::new(MockDevice::new(0, "TestDevice"));
    let result = bus.register_device(0x5000_0000, dev);

    assert!(matches!(result, Err(RegistrationError::ZeroSize)));
}

#[test]
fn bus_tests_test_device_read_write_routing() {
    let mut bus = SystemBus::new();

    let dev = Box::new(MockDevice::new(256, "TestDevice"));
    bus.register_device(0x5000_0000, dev).unwrap();

    bus.write_word(0x5000_0000, 0x12345678);
    let value = bus.read_word(0x5000_0000);
    assert_eq!(value, 0x12345678);

    bus.write_word(0x5000_0004, 0xABCDEF00);
    let value = bus.read_word(0x5000_0004);
    assert_eq!(value, 0xABCDEF00);

    let value = bus.read_word(0x5000_0000);
    assert_eq!(value, 0x12345678);
}

#[test]
fn test_device_unmapped_address_read_returns_zero() {
    let mut bus = SystemBus::new();

    let value = bus.read_word(0x6000_0000);
    assert_eq!(value, 0);
}

#[test]
fn test_device_unmapped_address_write_discarded() {
    let mut bus = SystemBus::new();

    bus.write_word(0x6000_0000, 0x12345678);

    let value = bus.read_word(0x6000_0000);
    assert_eq!(value, 0);
}

#[test]
fn bus_tests_test_multiple_devices_independent() {
    let mut bus = SystemBus::new();

    let dev1 = Box::new(MockDevice::new(256, "Device1"));
    bus.register_device(0x5000_0000, dev1).unwrap();

    let dev2 = Box::new(MockDevice::new(256, "Device2"));
    bus.register_device(0x6000_0000, dev2).unwrap();

    bus.write_word(0x5000_0000, 0x11111111);
    bus.write_word(0x6000_0000, 0x22222222);

    assert_eq!(bus.read_word(0x5000_0000), 0x11111111);
    assert_eq!(bus.read_word(0x6000_0000), 0x22222222);
}

// Further scenarios of the library's own contracts.

#[test]
fn test_fifo_bus_fifo_registers() {
    let mut bus = SystemBus::new();
    // STATUS: TX_READY only while nothing waits for the CPU.
    assert_eq!(bus.read_word(FIFO_BASE + 4), 0b10);
    bus.fifo.rx.push_back(b'h');
    bus.fifo.rx.push_back(b'i');
    assert_eq!(bus.read_word(FIFO_BASE + 4), 0b11);
    // DATA is byte-wide: a word read of it answers zero and takes nothing.
    assert_eq!(bus.read_word(FIFO_BASE), 0);
    assert_eq!(bus.read_byte(FIFO_BASE), b'h');
    assert_eq!(bus.read_byte(FIFO_BASE), b'i');
    assert_eq!(bus.read_byte(FIFO_BASE), 0);
    bus.write_byte(FIFO_BASE, b'o');
    bus.write_byte(FIFO_BASE, b'k');
    assert_eq!(bus.fifo.tx.iter().copied().collect::<Vec<u8>>(), vec![b'o', b'k']);
}

#[test]
fn test_fifo_bus_dram_and_tohost() {
    let mut bus = SystemBus::new();
    bus.write_word(0x8000_0000, 0x0102_0304);
    assert_eq!(bus.read_byte(0x8000_0000), 0x04);
    assert_eq!(bus.read_halfword(0x8000_0002), 0x0102);
    bus.write_word(SIM_CONTROL_BASE, 7);
    assert_eq!(bus.sim_control.acknowledge_termination(), Some(7));
}

#[test]
fn test_fifo_bus_reservation() {
    let mut bus = SystemBus::new();
    assert!(!bus.check_reservation(0x8000_0000));
    bus.set_reservation(0x8000_0000);
    assert!(bus.check_reservation(0x8000_0000));
    assert!(!bus.check_reservation(0x8000_0004));
    bus.clear_reservation();
    assert!(!bus.check_reservation(0x8000_0000));
}

#[test]
fn test_fifo_bus_acknowledge_termination_takes_pending_value() {
    let mut bus = SystemBus::new();
    bus.write_word(SIM_CONTROL_BASE, 3);
    assert_eq!(bus.acknowledge_termination(), Some(3));
    assert_eq!(bus.acknowledge_termination(), None);
}
