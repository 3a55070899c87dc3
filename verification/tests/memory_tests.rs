use cpu_sim::memory::Memory;

#[test]
fn test_memory_little_endian_word() {
    let mut m = Memory::new();
    m.write_word(0x100, 0xAABB_CCDD);
    assert_eq!(m.read_byte(0x100), 0xDD);
    assert_eq!(m.read_byte(0x103), 0xAA);
    assert_eq!(m.read_halfword(0x102), 0xAABB);
    assert_eq!(m.read_word(0x100), 0xAABB_CCDD);
}

#[test]
fn test_memory_unwritten_reads_zero_and_reset() {
    let mut m = Memory::default();
    assert_eq!(m.read_word(0x1234), 0);
    m.write_byte(0x1234, 7);
    m.write_halfword(0x2000, 0x0102);
    assert_eq!(m.read_word(0x1234), 7);
    assert_eq!(m.read_byte(0x2001), 1);
    m.reset();
    assert_eq!(m.read_word(0x1234), 0);
}

#[test]
fn test_memory_word_wraps_at_top_of_address_space() {
    let mut m = Memory::new();
    m.write_word(0xFFFF_FFFE, 0x4433_2211);
    assert_eq!(m.read_byte(0xFFFF_FFFF), 0x22);
    assert_eq!(m.read_byte(0x0000_0000), 0x33);
    assert_eq!(m.read_word(0xFFFF_FFFE), 0x4433_2211);
}
