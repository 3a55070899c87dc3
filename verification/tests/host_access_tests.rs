use cpu_sim::host_access::{dump_memory_region, image_byte_count, parse_number, write_memory_region};
use cpu_sim::memory::Memory;

#[test]
fn test_parse_number_decimal_and_hex() {
    assert_eq!(parse_number("0"), Some(0));
    assert_eq!(parse_number("1024"), Some(1024));
    assert_eq!(parse_number("+7"), Some(7));
    assert_eq!(parse_number("0x8000_0000"), None);
    assert_eq!(parse_number("0x80000000"), Some(0x8000_0000));
    assert_eq!(parse_number("0xdeadBEEF"), Some(0xDEAD_BEEF));
    assert_eq!(parse_number("0xFFFFFFFF"), Some(u32::MAX));
    assert_eq!(parse_number("4294967295"), Some(u32::MAX));
}

#[test]
fn test_parse_number_rejects() {
    assert_eq!(parse_number(""), None);
    assert_eq!(parse_number("+"), None);
    assert_eq!(parse_number("0x"), None);
    assert_eq!(parse_number("-1"), None);
    assert_eq!(parse_number("12a"), None);
    assert_eq!(parse_number("0X10"), None);
    assert_eq!(parse_number("4294967296"), None);
    assert_eq!(parse_number("0x100000000"), None);
    assert_eq!(parse_number("99999999999999999999x"), None);
}

#[test]
fn test_image_byte_count() {
    assert_eq!(image_byte_count(640, 480), Ok(640 * 480 * 4));
    assert_eq!(image_byte_count(0, 480), Ok(0));
    assert_eq!(image_byte_count(0x1_0000, 0x1_0000), Err("Image dimensions overflow".to_string()));
    assert_eq!(image_byte_count(0x1_0000, 0x8000), Err("Image size overflow".to_string()));
}

#[test]
fn test_write_and_dump_memory_region() {
    let mut memory = Memory::new();
    assert!(write_memory_region(&mut memory, 0x8000_0000, &[1, 2, 3, 4, 5]));
    assert_eq!(dump_memory_region(&memory, 0x8000_0001, 3), vec![2, 3, 4]);
    assert_eq!(memory.read_word(0x8000_0000), 0x0403_0201);
    assert!(write_memory_region(&mut memory, 0x1000, &[]));
}

#[test]
fn test_memory_region_outside_dram() {
    let mut memory = Memory::new();
    assert!(!write_memory_region(&mut memory, 0x7FFF_FFFE, &[1, 2, 3]));
    assert_eq!(memory.read_word(0x7FFF_FFFE), 0);
    memory.write_byte(0x1000, 9);
    assert_eq!(dump_memory_region(&memory, 0x1000, 2), vec![0, 0]);
    assert_eq!(dump_memory_region(&memory, 0xFFFF_FFFF, 2), vec![0, 0]);
    assert_eq!(dump_memory_region(&memory, 0x1000, 0), Vec::<u8>::new());
}
