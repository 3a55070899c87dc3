use cpu_sim::bus_device::{BusDevice, BusDeviceError, SystemContext};
use cpu_sim::dma::Dma;
use cpu_sim::memory::Memory;

#[test]
fn test_dma_register_access() {
    let mut dma = Dma::new();
    let mut memory = Memory::new();
    let mut ctx = SystemContext::new(&mut memory);

    // Write to registers
    dma.write_word(&mut ctx, 0x00, 0x8000_1000).unwrap();
    dma.write_word(&mut ctx, 0x04, 0x8000_2000).unwrap();
    dma.write_word(&mut ctx, 0x08, 256).unwrap();

    // Read back registers
    assert_eq!(dma.read_word(&mut ctx, 0x00).unwrap(), 0x8000_1000);
    assert_eq!(dma.read_word(&mut ctx, 0x04).unwrap(), 0x8000_2000);
    assert_eq!(dma.read_word(&mut ctx, 0x08).unwrap(), 256);

    // Status should be idle (0)
    assert_eq!(dma.read_word(&mut ctx, 0x0C).unwrap(), 0);
}

#[test]
fn test_dma_status_register_read_only() {
    let mut dma = Dma::new();
    let mut memory = Memory::new();
    let mut ctx = SystemContext::new(&mut memory);

    let result = dma.write_word(&mut ctx, 0x0C, 1);
    assert!(matches!(
        result,
        Err(BusDeviceError::WriteToReadOnly { offset: 0x0C })
    ));
}

#[test]
fn test_dma_dispatch_register_write_only() {
    let mut dma = Dma::new();
    let mut memory = Memory::new();
    let mut ctx = SystemContext::new(&mut memory);

    let result = dma.read_word(&mut ctx, 0x10);
    assert!(matches!(
        result,
        Err(BusDeviceError::ReadFromWriteOnly { offset: 0x10 })
    ));
}

#[test]
fn test_dma_transfer() {
    let mut dma = Dma::new();
    let mut memory = Memory::new();
    let mut ctx = SystemContext::new(&mut memory);

    // Set up source data in memory
    let src_addr = 0x8000_1000;
    let dst_addr = 0x8000_2000;
    let test_data = [0x12u8, 0x34, 0x56, 0x78];

    for (i, &byte) in test_data.iter().enumerate() {
        ctx.write_byte(src_addr + i as u32, byte);
    }

    // Configure DMA
    dma.write_word(&mut ctx, 0x00, src_addr).unwrap();
    dma.write_word(&mut ctx, 0x04, dst_addr).unwrap();
    dma.write_word(&mut ctx, 0x08, test_data.len() as u32)
        .unwrap();

    // Dispatch transfer
    dma.write_word(&mut ctx, 0x10, 1).unwrap();

    // Check status is busy
    assert_eq!(dma.read_word(&mut ctx, 0x0C).unwrap(), 1);

    // Run clock cycles to transfer all bytes
    for _ in 0..test_data.len() {
        dma.clock_cycle(&mut ctx);
    }

    // Check status is idle
    assert_eq!(dma.read_word(&mut ctx, 0x0C).unwrap(), 0);

    // Verify destination data
    for (i, &expected) in test_data.iter().enumerate() {
        let actual = ctx.read_byte(dst_addr + i as u32);
        assert_eq!(actual, expected, "Mismatch at byte {}", i);
    }
}

#[test]
fn test_dma_zero_size() {
    let mut dma = Dma::new();
    let mut memory = Memory::new();
    let mut ctx = SystemContext::new(&mut memory);

    // Configure DMA with zero size
    dma.write_word(&mut ctx, 0x00, 0x8000_1000).unwrap();
    dma.write_word(&mut ctx, 0x04, 0x8000_2000).unwrap();
    dma.write_word(&mut ctx, 0x08, 0).unwrap();

    // Dispatch transfer (should be no-op)
    dma.write_word(&mut ctx, 0x10, 1).unwrap();

    // Status should still be idle
    assert_eq!(dma.read_word(&mut ctx, 0x0C).unwrap(), 0);
}

#[test]
fn test_dma_reset() {
    let mut dma = Dma::new();
    let mut memory = Memory::new();
    let mut ctx = SystemContext::new(&mut memory);

    // Configure DMA
    dma.write_word(&mut ctx, 0x00, 0x8000_1000).unwrap();
    dma.write_word(&mut ctx, 0x04, 0x8000_2000).unwrap();
    dma.write_word(&mut ctx, 0x08, 256).unwrap();

    // Reset
    dma.reset(&mut ctx);

    // All registers should be zero
    assert_eq!(dma.read_word(&mut ctx, 0x00).unwrap(), 0);
    assert_eq!(dma.read_word(&mut ctx, 0x04).unwrap(), 0);
    assert_eq!(dma.read_word(&mut ctx, 0x08).unwrap(), 0);
    assert_eq!(dma.read_word(&mut ctx, 0x0C).unwrap(), 0);
}

#[test]
fn test_dma_register_modification_during_transfer() {
    let mut dma = Dma::new();
    let mut memory = Memory::new();
    let mut ctx = SystemContext::new(&mut memory);

    // Set up source data in memory
    let src_addr = 0x8000_1000;
    let dst_addr = 0x8000_2000;
    let test_data = [0xAAu8, 0xBB, 0xCC, 0xDD, 0xEE, 0xFF, 0x11, 0x22];

    for (i, &byte) in test_data.iter().enumerate() {
        ctx.write_byte(src_addr + i as u32, byte);
    }

    // Configure DMA for initial transfer
    dma.write_word(&mut ctx, 0x00, src_addr).unwrap();
    dma.write_word(&mut ctx, 0x04, dst_addr).unwrap();
    dma.write_word(&mut ctx, 0x08, test_data.len() as u32)
        .unwrap();

    // Dispatch transfer
    dma.write_word(&mut ctx, 0x10, 1).unwrap();

    // Check status is busy
    assert_eq!(dma.read_word(&mut ctx, 0x0C).unwrap(), 1);

    // Transfer 2 bytes
    for _ in 0..2 {
        dma.clock_cycle(&mut ctx);
    }

    // Modify configuration registers during transfer
    // This should NOT affect the active transfer
    let new_src = 0x8000_3000;
    let new_dst = 0x8000_4000;
    let new_size = 4;
    dma.write_word(&mut ctx, 0x00, new_src).unwrap();
    dma.write_word(&mut ctx, 0x04, new_dst).unwrap();
    dma.write_word(&mut ctx, 0x08, new_size).unwrap();

    // Verify config registers were modified
    assert_eq!(dma.read_word(&mut ctx, 0x00).unwrap(), new_src);
    assert_eq!(dma.read_word(&mut ctx, 0x04).unwrap(), new_dst);
    assert_eq!(dma.read_word(&mut ctx, 0x08).unwrap(), new_size);

    // Still busy - transfer should continue
    assert_eq!(dma.read_word(&mut ctx, 0x0C).unwrap(), 1);

    // Complete the original transfer (6 more bytes)
    for _ in 0..6 {
        dma.clock_cycle(&mut ctx);
    }

    // Check status is now idle
    assert_eq!(dma.read_word(&mut ctx, 0x0C).unwrap(), 0);

    // Verify destination data matches the ORIGINAL transfer parameters
    // despite the config registers being modified mid-transfer
    for (i, &expected) in test_data.iter().enumerate() {
        let actual = ctx.read_byte(dst_addr + i as u32);
        assert_eq!(
            actual, expected,
            "Mismatch at byte {} - transfer should have used original src/dst despite config modification",
            i
        );
    }

    // Verify that the NEW config is still set and can be used for next transfer
    assert_eq!(dma.read_word(&mut ctx, 0x00).unwrap(), new_src);
    assert_eq!(dma.read_word(&mut ctx, 0x04).unwrap(), new_dst);
    assert_eq!(dma.read_word(&mut ctx, 0x08).unwrap(), new_size);
}

#[test]
fn test_dma_multiple_dispatch_rejected() {
    let mut dma = Dma::new();
    let mut memory = Memory::new();
    let mut ctx = SystemContext::new(&mut memory);

    // Set up source data in memory
    let src_addr = 0x8000_1000;
    let dst_addr = 0x8000_2000;
    let test_data = [0x12u8, 0x34, 0x56, 0x78];

    for (i, &byte) in test_data.iter().enumerate() {
        ctx.write_byte(src_addr + i as u32, byte);
    }

    // Configure DMA
    dma.write_word(&mut ctx, 0x00, src_addr).unwrap();
    dma.write_word(&mut ctx, 0x04, dst_addr).unwrap();
    dma.write_word(&mut ctx, 0x08, test_data.len() as u32)
        .unwrap();

    // Dispatch first transfer
    dma.write_word(&mut ctx, 0x10, 1).unwrap();
    assert_eq!(dma.read_word(&mut ctx, 0x0C).unwrap(), 1); // busy

    // Attempt to dispatch second transfer (should be rejected)
    dma.write_word(&mut ctx, 0x00, 0x8000_5000).unwrap();
    dma.write_word(&mut ctx, 0x04, 0x8000_6000).unwrap();
    dma.write_word(&mut ctx, 0x10, 1).unwrap(); // This should be ignored

    // Should still be busy with first transfer
    assert_eq!(dma.read_word(&mut ctx, 0x0C).unwrap(), 1);

    // Complete the first transfer
    for _ in 0..test_data.len() {
        dma.clock_cycle(&mut ctx);
    }

    // Should be idle now
    assert_eq!(dma.read_word(&mut ctx, 0x0C).unwrap(), 0);

    // Verify the first transfer completed correctly
    for (i, &expected) in test_data.iter().enumerate() {
        let actual = ctx.read_byte(dst_addr + i as u32);
        assert_eq!(actual, expected);
    }
}

// Further scenarios of the library's own contracts.

#[test]
fn test_dma_size_and_name() {
    let dma = Dma::default();
    assert_eq!(dma.size(), 20);
    assert_eq!(dma.name(), "DMA");
}

#[test]
fn test_dma_invalid_offset() {
    let mut dma = Dma::new();
    let mut memory = Memory::new();
    let mut ctx = SystemContext::new(&mut memory);
    assert!(matches!(
        dma.read_word(&mut ctx, 0x14),
        Err(BusDeviceError::InvalidAddress { offset: 0x14 })
    ));
    assert!(matches!(
        dma.write_word(&mut ctx, 0x14, 0),
        Err(BusDeviceError::InvalidAddress { offset: 0x14 })
    ));
}

#[test]
fn test_dma_copy_leaves_other_bytes() {
    let mut dma = Dma::new();
    let mut memory = Memory::new();
    let mut ctx = SystemContext::new(&mut memory);
    for i in 0..3u32 {
        ctx.write_byte(0x8000_0000 + i, 0xA0 + i as u8);
    }
    ctx.write_byte(0x8000_0103, 0x77);
    dma.write_word(&mut ctx, 0x00, 0x8000_0000).unwrap();
    dma.write_word(&mut ctx, 0x04, 0x8000_0100).unwrap();
    dma.write_word(&mut ctx, 0x08, 3).unwrap();
    dma.write_word(&mut ctx, 0x10, 0).unwrap();
    for _ in 0..3 {
        dma.clock_cycle(&mut ctx);
    }
    assert_eq!(ctx.read_word(0x8000_0100), 0x77A2_A1A0);
    // Further cycles do nothing once idle.
    dma.clock_cycle(&mut ctx);
    assert_eq!(ctx.read_word(0x8000_0100), 0x77A2_A1A0);
}

#[test]
fn test_start_transfer_latches_registers() {
    let mut dma = Dma::new();
    let mut memory = Memory::new();
    let mut ctx = SystemContext::new(&mut memory);
    dma.write_word(&mut ctx, 0x00, 0x8000_0000).unwrap();
    dma.write_word(&mut ctx, 0x04, 0x8000_0100).unwrap();
    dma.write_word(&mut ctx, 0x08, 0).unwrap();
    dma.start_transfer();
    assert_eq!(dma.read_word(&mut ctx, 0x0C).unwrap(), 0);
    dma.write_word(&mut ctx, 0x08, 8).unwrap();
    dma.start_transfer();
    assert_eq!(dma.read_word(&mut ctx, 0x0C).unwrap(), 1);
}
