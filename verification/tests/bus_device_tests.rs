use cpu_sim::bus_device::{BusDevice, BusDeviceError, SystemContext};
use cpu_sim::memory::Memory;
use cpu_sim::memory_map::{is_valid_dram_range, ranges_overlap};

#[test]
fn test_ranges_overlap() {
    // Overlapping ranges
    assert!(ranges_overlap(0x0, 0x100, 0x50, 0x150));
    assert!(ranges_overlap(0x50, 0x150, 0x0, 0x100));
    assert!(ranges_overlap(0x0, 0x100, 0x0, 0x100)); // Exact overlap
    assert!(ranges_overlap(0x0, 0x100, 0x20, 0x80)); // Contained

    // Non-overlapping ranges
    assert!(!ranges_overlap(0x0, 0x100, 0x100, 0x200)); // Adjacent
    assert!(!ranges_overlap(0x100, 0x200, 0x0, 0x100)); // Adjacent (reversed)
    assert!(!ranges_overlap(0x0, 0x100, 0x200, 0x300)); // Separate
}

#[test]
fn test_valid_dram_range() {
    assert!(is_valid_dram_range(0x8000_0000, 4));
    assert!(is_valid_dram_range(0xFFFF_FFFC, 4));
    assert!(!is_valid_dram_range(0xFFFF_FFFD, 4));
    assert!(!is_valid_dram_range(0x7FFF_FFFF, 1));
    assert!(!is_valid_dram_range(0x8000_0000, 0));
}

#[test]
fn test_context_rejects_non_dram_accesses() {
    let mut memory = Memory::new();
    let mut ctx = SystemContext::new(&mut memory);
    ctx.write_word(0x1000, 0xFFFF_FFFF);
    assert_eq!(ctx.read_word(0x1000), 0);
    ctx.write_word(0x8000_0000, 0x1122_3344);
    assert_eq!(ctx.read_word(0x8000_0000), 0x1122_3344);
    assert_eq!(ctx.read_halfword(0x8000_0002), 0x1122);
    assert_eq!(ctx.read_byte(0x8000_0001), 0x33);
    ctx.write_halfword(0xFFFF_FFFF, 0xABCD);
    assert_eq!(ctx.read_byte(0xFFFF_FFFF), 0);
    ctx.write_byte(0xFFFF_FFFF, 0x5A);
    assert_eq!(ctx.read_byte(0xFFFF_FFFF), 0x5A);
}

#[test]
fn test_context_elapsed_time() {
    let mut memory = Memory::new();
    let ctx = SystemContext::with_elapsed_time(&mut memory, 1234);
    assert_eq!(ctx.elapsed_time_us(), 1234);
}

/// A device that keeps every provided method.
struct PlainDevice;

impl BusDevice for PlainDevice {
    fn read_word(&mut self, _ctx: &mut SystemContext, _offset: u32) -> Result<u32, BusDeviceError> {
        Ok(7)
    }

    fn write_word(&mut self, _ctx: &mut SystemContext, _offset: u32, _value: u32) -> Result<(), BusDeviceError> {
        Ok(())
    }

    fn spec_size(&self) -> u32 {
        4
    }

    fn size(&self) -> u32 {
        4
    }
}

#[test]
fn test_provided_methods_defaults() {
    let mut device = PlainDevice;
    assert_eq!(device.name(), "Unknown Device");
    let mut memory = Memory::new();
    let mut ctx = SystemContext::new(&mut memory);
    assert_eq!(
        device.read_byte(&mut ctx, 1),
        Err(BusDeviceError::UnsupportedSize { offset: 1, size: 1 })
    );
    device.clock_cycle(&mut ctx);
    device.reset(&mut ctx);
}
