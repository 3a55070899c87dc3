use cpu_sim::elf_loader::ElfLoadError;
use cpu_sim::memory::Memory;

/// A little-endian ELF32 RISC-V executable with the given entry point and
/// program headers `(p_type, p_vaddr, file bytes)`; segment data follows
/// the header table in order.
fn build_elf32(entry: u32, segments: &[(u32, u32, Vec<u8>)]) -> Vec<u8> {
    let phoff: u32 = 52;
    let data_start = phoff + 32 * segments.len() as u32;
    let mut out = Vec::new();
    out.extend_from_slice(&[0x7f, b'E', b'L', b'F', 1, 1, 1, 0]);
    out.extend_from_slice(&[0; 8]);
    out.extend_from_slice(&2u16.to_le_bytes()); // e_type: executable
    out.extend_from_slice(&0xF3u16.to_le_bytes()); // e_machine: RISC-V
    out.extend_from_slice(&1u32.to_le_bytes()); // e_version
    out.extend_from_slice(&entry.to_le_bytes());
    out.extend_from_slice(&phoff.to_le_bytes());
    out.extend_from_slice(&0u32.to_le_bytes()); // e_shoff
    out.extend_from_slice(&0u32.to_le_bytes()); // e_flags
    out.extend_from_slice(&52u16.to_le_bytes()); // e_ehsize
    out.extend_from_slice(&32u16.to_le_bytes()); // e_phentsize
    out.extend_from_slice(&(segments.len() as u16).to_le_bytes());
    out.extend_from_slice(&40u16.to_le_bytes()); // e_shentsize
    out.extend_from_slice(&0u16.to_le_bytes()); // e_shnum
    out.extend_from_slice(&0u16.to_le_bytes()); // e_shstrndx
    let mut offset = data_start;
    for (p_type, vaddr, data) in segments {
        out.extend_from_slice(&p_type.to_le_bytes());
        out.extend_from_slice(&offset.to_le_bytes());
        out.extend_from_slice(&vaddr.to_le_bytes());
        out.extend_from_slice(&vaddr.to_le_bytes());
        out.extend_from_slice(&(data.len() as u32).to_le_bytes());
        out.extend_from_slice(&(data.len() as u32).to_le_bytes());
        out.extend_from_slice(&5u32.to_le_bytes());
        out.extend_from_slice(&4u32.to_le_bytes());
        offset += data.len() as u32;
    }
    for (_, _, data) in segments {
        out.extend_from_slice(data);
    }
    out
}

#[test]
fn test_load_elf_copies_load_segments() {
    let elf = build_elf32(
        0x8000_0004,
        &[
            (1, 0x8000_0000, vec![0x13, 0x00, 0x00, 0x00, 0x6f, 0x00, 0x00, 0x00]),
            (4, 0x9000_0000, vec![0xEE; 4]), // PT_NOTE: not loaded
            (1, 0x8000_1000, vec![1, 2, 3]),
        ],
    );
    let mut memory = Memory::new();
    let entry = memory.load_elf(&elf).expect("the image loads");
    assert_eq!(entry, 0x8000_0004);
    assert_eq!(memory.read_word(0x8000_0000), 0x0000_0013);
    assert_eq!(memory.read_word(0x8000_0004), 0x0000_006f);
    assert_eq!(memory.read_word(0x8000_1000), 0x0003_0201);
    assert_eq!(memory.read_word(0x9000_0000), 0);
}

#[test]
fn test_load_elf_later_segment_wins() {
    let elf = build_elf32(0, &[(1, 0x8000_0000, vec![1, 1, 1, 1]), (1, 0x8000_0002, vec![9, 9])]);
    let mut memory = Memory::new();
    assert_eq!(memory.load_elf(&elf), Ok(0));
    assert_eq!(memory.read_word(0x8000_0000), 0x0909_0101);
}

#[test]
fn test_load_elf_rejects_garbage() {
    let mut memory = Memory::new();
    memory.write_byte(0x10, 0x55);
    let r = memory.load_elf(b"not an elf file at all, just text bytes here.........................");
    assert!(matches!(r, Err(ElfLoadError::Parse { .. })));
    assert_eq!(memory.read_byte(0x10), 0x55);
}

#[test]
fn test_load_elf_rejects_truncated_segment() {
    let mut elf = build_elf32(0x8000_0000, &[(1, 0x8000_0000, vec![1, 2, 3, 4])]);
    elf.truncate(elf.len() - 2);
    let mut memory = Memory::new();
    assert_eq!(
        memory.load_elf(&elf),
        Err(ElfLoadError::SegmentOutOfRange { index: 0 })
    );
    assert_eq!(memory.read_word(0x8000_0000), 0);
}

#[test]
fn test_load_elf_rejects_segment_past_address_space() {
    let elf = build_elf32(0, &[(1, 0xFFFF_FFFE, vec![1, 2, 3, 4])]);
    let mut memory = Memory::new();
    assert_eq!(
        memory.load_elf(&elf),
        Err(ElfLoadError::SegmentOutOfRange { index: 0 })
    );
}

#[test]
fn test_load_segments_from_headers() {
    let file: Vec<u8> = (0u8..16).collect();
    let segments = vec![(1u32, 0x1_8000_0000u64, 4u64, 2u64), (2, 0x9000_0000, 4, 0), (1, 0x8000_0010, 0, 0)];
    let mut memory = Memory::new();
    // The virtual address is truncated to 32 bits; a 64-bit entry reads as zero.
    assert_eq!(memory.load_segments(&file, 0x1_0000_0000, &segments), Ok(0));
    assert_eq!(memory.read_word(0x8000_0000), 0x0504_0302);
    assert_eq!(memory.read_word(0x9000_0000), 0);
    let bad = vec![(1u32, 0x8000_0000u64, 4u64, 14u64)];
    assert_eq!(
        memory.load_segments(&file, 0, &bad),
        Err(ElfLoadError::SegmentOutOfRange { index: 0 })
    );
}
