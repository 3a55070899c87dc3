use cpu_sim::bus_device::{BusDevice, BusDeviceError, SystemContext};
use cpu_sim::memory::Memory;
use cpu_sim::sim_control::SimControl;

#[test]
fn test_sim_control_write_tohost() {
    let mut sim_control = SimControl::new();
    let mut memory = Memory::new();
    let mut ctx = SystemContext::new(&mut memory);

    assert!(!sim_control.is_termination_pending());

    sim_control.write_word(&mut ctx, 0, 42).unwrap();
    assert!(sim_control.is_termination_pending());
}

#[test]
fn test_sim_control_read_tohost_fails() {
    let mut sim_control = SimControl::new();
    let mut memory = Memory::new();
    let mut ctx = SystemContext::new(&mut memory);

    let result = sim_control.read_word(&mut ctx, 0);
    assert!(matches!(
        result,
        Err(BusDeviceError::ReadFromWriteOnly { offset: 0 })
    ));
}

#[test]
fn test_sim_control_invalid_address() {
    let mut sim_control = SimControl::new();
    let mut memory = Memory::new();
    let mut ctx = SystemContext::new(&mut memory);

    assert!(matches!(
        sim_control.read_word(&mut ctx, 4),
        Err(BusDeviceError::InvalidAddress { offset: 4 })
    ));
    assert!(matches!(
        sim_control.write_word(&mut ctx, 4, 0),
        Err(BusDeviceError::InvalidAddress { offset: 4 })
    ));
}

#[test]
fn test_sim_control_acknowledge_termination() {
    let mut sim_control = SimControl::new();
    let mut memory = Memory::new();
    let mut ctx = SystemContext::new(&mut memory);

    sim_control.write_word(&mut ctx, 0, 42).unwrap();
    assert!(sim_control.is_termination_pending());

    assert_eq!(sim_control.acknowledge_termination(), Some(42));

    assert!(!sim_control.is_termination_pending());
    assert_eq!(sim_control.acknowledge_termination(), None);
}

#[test]
fn test_sim_control_reset_clears_termination() {
    let mut sim_control = SimControl::new();
    let mut memory = Memory::new();
    let mut ctx = SystemContext::new(&mut memory);

    sim_control.write_word(&mut ctx, 0, 42).unwrap();
    assert!(sim_control.is_termination_pending());

    sim_control.reset(&mut ctx);

    assert!(!sim_control.is_termination_pending());
    assert_eq!(sim_control.acknowledge_termination(), None);
}

#[test]
fn sim_control_test_sim_control_write_tohost() {
    let mut sim_control = SimControl::new();
    let mut memory = Memory::new();
    let mut ctx = SystemContext::new(&mut memory);
    assert_eq!(sim_control.termination_requested(), None);

    sim_control.write_word(&mut ctx, 0, 42).unwrap();
    assert_eq!(sim_control.termination_requested(), Some(42));
}

#[test]
fn sim_control_test_sim_control_read_tohost_fails() {
    let mut sim_control = SimControl::new();
    let mut memory = Memory::new();
    let mut ctx = SystemContext::new(&mut memory);
    let result = sim_control.read_word(&mut ctx, 0);
    assert!(matches!(
        result,
        Err(BusDeviceError::ReadFromWriteOnly { offset: 0 })
    ));
}

#[test]
fn sim_control_test_sim_control_invalid_address() {
    let mut sim_control = SimControl::new();
    let mut memory = Memory::new();
    let mut ctx = SystemContext::new(&mut memory);
    assert!(matches!(
        sim_control.read_word(&mut ctx, 4),
        Err(BusDeviceError::InvalidAddress { offset: 4 })
    ));
    assert!(matches!(
        sim_control.write_word(&mut ctx, 4, 0),
        Err(BusDeviceError::InvalidAddress { offset: 4 })
    ));
}

#[test]
fn test_sim_control_clear_termination() {
    let mut sim_control = SimControl::new();
    let mut memory = Memory::new();
    let mut ctx = SystemContext::new(&mut memory);
    sim_control.write_word(&mut ctx, 0, 42).unwrap();
    assert_eq!(sim_control.termination_requested(), Some(42));

    sim_control.clear_termination();
    assert_eq!(sim_control.termination_requested(), None);
}

#[test]
fn test_sim_control_size_and_name() {
    let sim_control = SimControl::default();
    assert_eq!(sim_control.size(), 4);
    assert_eq!(sim_control.name(), "SimControl");
}

#[test]
fn test_sim_control_rejects_halfword_and_byte() {
    let mut sim_control = SimControl::new();
    let mut memory = Memory::new();
    let mut ctx = SystemContext::new(&mut memory);
    assert!(matches!(
        sim_control.write_halfword(&mut ctx, 0, 1),
        Err(BusDeviceError::UnsupportedSize { offset: 0, size: 2 })
    ));
    assert!(matches!(
        sim_control.write_byte(&mut ctx, 0, 1),
        Err(BusDeviceError::UnsupportedSize { offset: 0, size: 1 })
    ));
    assert!(!sim_control.is_termination_pending());
}
