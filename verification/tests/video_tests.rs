use cpu_sim::bus_device::{BusDevice, BusDeviceError, SystemContext};
use cpu_sim::memory::Memory;
use cpu_sim::video::{to_rgba8, Video, VideoConfig, VideoFormat};

#[test]
fn test_video_format_bytes_per_pixel() {
    assert_eq!(VideoFormat::Rgba8.bytes_per_pixel(), 4);
    assert_eq!(VideoFormat::Rgb8.bytes_per_pixel(), 3);
    assert_eq!(VideoFormat::Rgb565.bytes_per_pixel(), 2);
    assert_eq!(VideoFormat::R8.bytes_per_pixel(), 1);
}

#[test]
fn test_video_config_parsing() {
    // Test: 640x480 RGBA8
    // width-1 = 639 (0x27F), height-1 = 479 (0x1DF), format = 0
    let config_value = 0x27F | (0x1DF << 12) | (0 << 24);
    let config = VideoConfig::from_register(config_value).unwrap();
    assert_eq!(config.width, 640);
    assert_eq!(config.height, 480);
    assert_eq!(config.format, VideoFormat::Rgba8);
    assert_eq!(config.total_bytes(), 640 * 480 * 4);

    // Test round-trip
    assert_eq!(config.to_register(), config_value);
}

#[test]
fn test_video_config_max_dimensions() {
    // Test: 4096x4096 RGBA8
    let config_value = 0xFFF | (0xFFF << 12) | (0 << 24);
    let config = VideoConfig::from_register(config_value).unwrap();
    assert_eq!(config.width, 4096);
    assert_eq!(config.height, 4096);
}

#[test]
fn test_video_config_min_dimensions() {
    // Test: 1x1 RGB565
    let config_value = 0x0 | (0x0 << 12) | (2 << 24);
    let config = VideoConfig::from_register(config_value).unwrap();
    assert_eq!(config.width, 1);
    assert_eq!(config.height, 1);
    assert_eq!(config.format, VideoFormat::Rgb565);
    assert_eq!(config.total_bytes(), 2);
}

#[test]
fn test_video_register_access() {
    let mut video = Video::new();
    let mut memory = Memory::new();
    let mut ctx = SystemContext::new(&mut memory);

    // Write to registers
    video.write_word(&mut ctx, 0x00, 0x8000_1000).unwrap();
    video
        .write_word(&mut ctx, 0x04, 0x27F | (0x1DF << 12))
        .unwrap();

    // Read back registers
    assert_eq!(video.read_word(&mut ctx, 0x00).unwrap(), 0x8000_1000);
    assert_eq!(
        video.read_word(&mut ctx, 0x04).unwrap(),
        0x27F | (0x1DF << 12)
    );

    // Status should show FRAME_READY and PRESENT_READY
    assert_eq!(video.read_word(&mut ctx, 0x08).unwrap(), 0b11);
}

#[test]
fn test_video_status_register_read_only() {
    let mut video = Video::new();
    let mut memory = Memory::new();
    let mut ctx = SystemContext::new(&mut memory);

    let result = video.write_word(&mut ctx, 0x08, 1);
    assert!(matches!(
        result,
        Err(BusDeviceError::WriteToReadOnly { offset: 0x08 })
    ));
}

#[test]
fn test_video_present_register_write_only() {
    let mut video = Video::new();
    let mut memory = Memory::new();
    let mut ctx = SystemContext::new(&mut memory);

    let result = video.read_word(&mut ctx, 0x0C);
    assert!(matches!(
        result,
        Err(BusDeviceError::ReadFromWriteOnly { offset: 0x0C })
    ));
}

#[test]
fn test_video_present_operation() {
    let mut video = Video::new();
    let mut memory = Memory::new();
    let mut ctx = SystemContext::new(&mut memory);

    // Set up test image data in memory (2x2 RGBA8)
    let img_addr = 0x8000_1000;
    let test_data = [
        0xFF, 0x00, 0x00, 0xFF, // Red pixel
        0x00, 0xFF, 0x00, 0xFF, // Green pixel
        0x00, 0x00, 0xFF, 0xFF, // Blue pixel
        0xFF, 0xFF, 0xFF, 0xFF, // White pixel
    ];

    for (i, &byte) in test_data.iter().enumerate() {
        ctx.write_byte(img_addr + i as u32, byte);
    }

    // Configure video device for 2x2 RGBA8
    video.write_word(&mut ctx, 0x00, img_addr).unwrap();
    let config = 1 | (1 << 12) | (0 << 24); // 2x2 RGBA8
    video.write_word(&mut ctx, 0x04, config).unwrap();

    // Check initial status: both FRAME_READY and PRESENT_READY
    assert_eq!(video.read_word(&mut ctx, 0x08).unwrap(), 0b11);

    // Trigger present
    video.write_word(&mut ctx, 0x0C, 0).unwrap();

    // Check status: PRESENT_READY should be clear, FRAME_READY still set
    let status = video.read_word(&mut ctx, 0x08).unwrap();
    assert_eq!(status & 0b10, 0); // PRESENT_READY = 0

    // Run clock cycles to complete the transfer
    for _ in 0..test_data.len() {
        video.clock_cycle(&mut ctx);
    }

    // After completion, PRESENT_READY should be set again
    let status = video.read_word(&mut ctx, 0x08).unwrap();
    assert_eq!(status & 0b10, 0b10); // PRESENT_READY = 1
}

#[test]
fn test_video_invalid_config() {
    let mut video = Video::new();
    let mut memory = Memory::new();
    let mut ctx = SystemContext::new(&mut memory);

    // Configure with invalid format
    video.write_word(&mut ctx, 0x00, 0x8000_1000).unwrap();
    video
        .write_word(&mut ctx, 0x04, 0x100 | (0x100 << 12) | (0xFF << 24))
        .unwrap();

    // Trigger present (should be ignored due to invalid format)
    video.write_word(&mut ctx, 0x0C, 0).unwrap();

    // Status should still show PRESENT_READY (no operation started)
    assert_eq!(video.read_word(&mut ctx, 0x08).unwrap(), 0b11);
}

#[test]
fn test_video_multiple_present_rejected() {
    let mut video = Video::new();
    let mut memory = Memory::new();
    let mut ctx = SystemContext::new(&mut memory);

    // Configure for small image
    video.write_word(&mut ctx, 0x00, 0x8000_1000).unwrap();
    video
        .write_word(&mut ctx, 0x04, 1 | (1 << 12) | (0 << 24))
        .unwrap();

    // Trigger first present
    video.write_word(&mut ctx, 0x0C, 0).unwrap();
    assert!(video.is_present_active());

    // Attempt to trigger second present (should be rejected)
    video.write_word(&mut ctx, 0x0C, 0).unwrap();

    // Run one cycle
    video.clock_cycle(&mut ctx);

    // Should still have active present
    assert!(video.is_present_active());
}

#[test]
fn test_video_reset() {
    let mut video = Video::new();
    let mut memory = Memory::new();
    let mut ctx = SystemContext::new(&mut memory);

    // Configure and start present
    video.write_word(&mut ctx, 0x00, 0x8000_1000).unwrap();
    video.write_word(&mut ctx, 0x04, 1 | (1 << 12)).unwrap();
    video.write_word(&mut ctx, 0x0C, 0).unwrap();

    // Reset
    video.reset(&mut ctx);

    // All registers should be zero
    assert_eq!(video.read_word(&mut ctx, 0x00).unwrap(), 0);
    assert_eq!(video.read_word(&mut ctx, 0x04).unwrap(), 0);

    // Status should show both ready bits
    assert_eq!(video.read_word(&mut ctx, 0x08).unwrap(), 0b11);

    // Active present should be cleared
    assert!(!video.is_present_active());
}

// Further scenarios of the library's own contracts.

#[test]
fn test_video_completed_frame_holds_framebuffer() {
    let mut video = Video::new();
    let mut memory = Memory::new();
    let mut ctx = SystemContext::new(&mut memory);
    let img_addr = 0x8000_2000;
    for i in 0..6u32 {
        ctx.write_byte(img_addr + i, (i as u8) * 10);
    }
    // 3x1 RGB565
    video.write_word(&mut ctx, 0x00, img_addr).unwrap();
    video.write_word(&mut ctx, 0x04, 2 | (0 << 12) | (2 << 24)).unwrap();
    video.write_word(&mut ctx, 0x0C, 0).unwrap();
    for _ in 0..6 {
        video.clock_cycle(&mut ctx);
    }
    assert!(!video.is_present_active());
    let frame = video.take_completed_frame().expect("a completed frame");
    assert_eq!(frame.pixel_data, vec![0, 10, 20, 30, 40, 50]);
    assert_eq!(frame.config.width, 3);
    assert_eq!(frame.config.height, 1);
    assert_eq!(frame.cycle, 6);
    assert!(video.take_completed_frame().is_none());
}

#[test]
fn test_video_frame_pacing() {
    let mut video = Video::with_fps(50);
    let mut memory = Memory::new();
    let mut ctx = SystemContext::new(&mut memory);
    video.frame_saved(0);
    assert_eq!(video.frame_index(), 1);
    // FRAME_READY clears until a frame period (100 MHz / 50) has elapsed.
    assert_eq!(video.read_word(&mut ctx, 0x08).unwrap() & 1, 0);
    for _ in 0..2_000_000u32 {
        video.clock_cycle(&mut ctx);
    }
    assert_eq!(video.read_word(&mut ctx, 0x08).unwrap() & 1, 1);
}

#[test]
fn test_video_format_codes() {
    assert_eq!(VideoFormat::from_u8(0), Some(VideoFormat::Rgba8));
    assert_eq!(VideoFormat::from_u8(3), Some(VideoFormat::R8));
    assert_eq!(VideoFormat::from_u8(4), None);
    assert_eq!(VideoFormat::Rgb565.to_u8(), 2);
}

#[test]
fn test_to_rgba8_conversions() {
    assert_eq!(to_rgba8(VideoFormat::R8, &[7, 9]), vec![7, 7, 7, 255, 9, 9, 9, 255]);
    assert_eq!(to_rgba8(VideoFormat::Rgb8, &[1, 2, 3]), vec![1, 2, 3, 255]);
    assert_eq!(to_rgba8(VideoFormat::Rgba8, &[1, 2, 3, 4]), vec![1, 2, 3, 4]);
}
