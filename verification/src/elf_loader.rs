//! Loading the LOAD segments of an ELF executable into memory.
//!
//! The `elf` crate parses the file; which bytes go where, and the entry
//! point handed back, are decided and proved here.
use crate::memory::Memory;
use vstd::prelude::*;

verus! {

/// Parse failure reported by the `elf` crate.
#[verifier::external_type_specification]
#[verifier::external_body]
pub struct ExElfParseError(elf::ParseError);

/// Program-header type of a loadable segment.
pub const PT_LOAD: u32 = 1;

/// A program header as the loader reads it:
/// `(p_type, p_vaddr, p_filesz, p_offset)`.
pub type SegmentHeader = (u32, u64, u64, u64);

/// What `elf::ElfBytes::<AnyEndian>::minimal_parse` makes of a file: `None`
/// when it refuses the file, else the header's entry point and, when the
/// file has a program header table, the program headers its iterator
/// yields, in table order.
pub uninterp spec fn elf_parse_result(file: Seq<u8>) -> Option<(u64, Option<Seq<SegmentHeader>>)>;

/// View of an optional list of program headers.
pub open spec fn segments_view(s: Option<Vec<SegmentHeader>>) -> Option<Seq<SegmentHeader>> {
    match s {
        Some(v) => Some(v@),
        None => None,
    }
}

/// Parse `data` with `elf::ElfBytes::<elf::endian::AnyEndian>::minimal_parse`,
/// then read the file header's `e_entry` and, when there is a program
/// header table, every `ProgramHeader` its iterator yields as
/// `(p_type, p_vaddr, p_filesz, p_offset)`. The contract says only that the
/// result is the one named by [`elf_parse_result`] for these bytes.
#[verifier::external_body]
fn parse_elf(data: &[u8]) -> (r: Result<(u64, Option<Vec<SegmentHeader>>), elf::ParseError>)
    ensures
        r is Ok <==> elf_parse_result(data@) is Some,
        r matches Ok((entry, segs)) ==> elf_parse_result(data@) == Some((entry, segments_view(segs))),
{
    let file = elf::ElfBytes::<elf::endian::AnyEndian>::minimal_parse(data)?;
    let segments = file.segments().map(
        |table| table.iter().map(|p| (p.p_type, p.p_vaddr, p.p_filesz, p.p_offset)).collect(),
    );
    Ok((file.ehdr.e_entry, segments))
}

/// The message `elf::ParseError`'s `Display` impl writes for `e`; nothing
/// is claimed of its text.
#[verifier::external_body]
fn parse_error_message(e: &elf::ParseError) -> String {
    format!("{}", e)
}

/// Why an ELF image could not be loaded.
#[derive(Debug, Clone, PartialEq, Eq)]
pub enum ElfLoadError {
    /// The `elf` crate refused the file; its message.
    Parse { message: String },
    /// A LOAD segment's bytes lie past the end of the file, or its
    /// addresses run past the end of the 32-bit address space.
    SegmentOutOfRange { index: usize },
}

/// The segment is loaded: a LOAD segment with file bytes.
pub open spec fn is_loaded(seg: SegmentHeader) -> bool {
    seg.0 == PT_LOAD && seg.2 > 0
}

/// The load address of a segment: its virtual address truncated to 32 bits.
pub open spec fn load_addr(seg: SegmentHeader) -> u32 {
    seg.1 as u32
}

/// A loaded segment's bytes lie inside the file and its target addresses
/// `load_addr .. load_addr + p_filesz` do not run past `0xFFFF_FFFF`.
pub open spec fn segment_fits(seg: SegmentHeader, file_len: int) -> bool {
    is_loaded(seg) ==> seg.3 + seg.2 <= file_len && load_addr(seg) + seg.2 <= 0x1_0000_0000
}

/// Every segment fits.
pub open spec fn all_segments_fit(segs: Seq<SegmentHeader>, file_len: int) -> bool {
    forall|k: int| 0 <= k < segs.len() ==> segment_fits(#[trigger] segs[k], file_len)
}

/// Memory after copying `len` file bytes from `offset` to the addresses
/// `vaddr .. vaddr + len`.
pub open spec fn copy_bytes(m: Map<u32, u8>, file: Seq<u8>, vaddr: u32, offset: int, len: int) -> Map<u32, u8> {
    Map::new(
        |a: u32| m.contains_key(a) || (vaddr <= a && a < vaddr + len),
        |a: u32| if vaddr <= a && a < vaddr + len { file[offset + (a - vaddr)] } else { m[a] },
    )
}

/// Memory after loading one segment (a no-op unless it is loaded).
pub open spec fn memory_after_segment(m: Map<u32, u8>, file: Seq<u8>, seg: SegmentHeader) -> Map<u32, u8> {
    if is_loaded(seg) {
        copy_bytes(m, file, load_addr(seg), seg.3 as int, seg.2 as int)
    } else {
        m
    }
}

/// Memory after loading the first `n` segments, in table order.
pub open spec fn memory_after_load(m: Map<u32, u8>, file: Seq<u8>, segs: Seq<SegmentHeader>, n: int) -> Map<u32, u8>
    decreases n,
{
    if n <= 0 {
        m
    } else {
        memory_after_segment(memory_after_load(m, file, segs, n - 1), file, segs[n - 1])
    }
}

/// The entry point handed back: the header's entry when it fits in 32
/// bits, else zero.
pub open spec fn entry_point(e_entry: u64) -> u32 {
    if e_entry <= u32::MAX { e_entry as u32 } else { 0 }
}

/// The program headers a parse result lists (none without a table).
pub open spec fn listed_segments(segs: Option<Seq<SegmentHeader>>) -> Seq<SegmentHeader> {
    match segs {
        Some(s) => s,
        None => Seq::empty(),
    }
}

/// Index of the first segment that does not fit, from index `i` on.
pub open spec fn first_misfit(segs: Seq<SegmentHeader>, file_len: int, i: int) -> Option<int>
    decreases segs.len() - i,
{
    if i < 0 || i >= segs.len() {
        None
    } else if !segment_fits(segs[i], file_len) {
        Some(i)
    } else {
        first_misfit(segs, file_len, i + 1)
    }
}

/// No misfit from `i` on means every segment from `i` on fits.
proof fn lemma_no_misfit(segs: Seq<SegmentHeader>, file_len: int, i: int)
    requires
        0 <= i,
        first_misfit(segs, file_len, i) is None,
    ensures
        forall|k: int| i <= k < segs.len() ==> segment_fits(#[trigger] segs[k], file_len),
    decreases segs.len() - i,
{
    if i < segs.len() {
        lemma_no_misfit(segs, file_len, i + 1);
    }
}

/// Index of the first segment that does not fit in a file of `file_len` bytes.
fn find_misfit(segs: &Vec<SegmentHeader>, file_len: usize) -> (r: Option<usize>)
    ensures
        match r {
            Some(k) => first_misfit(segs@, file_len as int, 0) == Some(k as int),
            None => first_misfit(segs@, file_len as int, 0) is None,
        },
{
    let mut i: usize = 0;
    while i < segs.len()
        invariant
            i <= segs@.len(),
            first_misfit(segs@, file_len as int, 0) == first_misfit(segs@, file_len as int, i as int),
        decreases segs@.len() - i,
    {
        let (p_type, p_vaddr, p_filesz, p_offset) = segs[i];
        if p_type == PT_LOAD && p_filesz > 0 {
            let vaddr = p_vaddr as u32;
            let file_fits = p_offset <= file_len as u64 && p_filesz <= file_len as u64 - p_offset;
            let addr_fits = p_filesz <= 0x1_0000_0000u64 - vaddr as u64;
            if !(file_fits && addr_fits) {
                return Some(i);
            }
        }
        i = i + 1;
    }
    None
}

impl Memory {
    /// Copy `len` bytes of `file` from `offset` to the addresses starting at `vaddr`.
    fn copy_from_file(&mut self, file: &[u8], vaddr: u32, offset: usize, len: usize)
        requires
            offset + len <= file@.len(),
            vaddr + len <= 0x1_0000_0000,
        ensures
            final(self)@ == copy_bytes(old(self)@, file@, vaddr, offset as int, len as int),
    {
        let file_len = file.len();
        let mut i: usize = 0;
        while i < len
            invariant
                i <= len,
                file_len == file@.len(),
                offset + len <= file@.len(),
                vaddr + len <= 0x1_0000_0000,
                self@ == copy_bytes(old(self)@, file@, vaddr, offset as int, i as int),
            decreases len - i,
        {
            let addr = vaddr + i as u32;
            self.write_byte(addr, file[offset + i]);
            i = i + 1;
            assert(self@ =~= copy_bytes(old(self)@, file@, vaddr, offset as int, i as int));
        }
    }

    /// Load the segments of a parsed image; every loaded segment must fit.
    fn load_fitting_segments(&mut self, file: &[u8], segs: &Vec<SegmentHeader>)
        requires
            all_segments_fit(segs@, file@.len() as int),
        ensures
            final(self)@ == memory_after_load(old(self)@, file@, segs@, segs@.len() as int),
    {
        let file_len = file.len();
        let mut k: usize = 0;
        while k < segs.len()
            invariant
                k <= segs@.len(),
                file_len == file@.len(),
                all_segments_fit(segs@, file@.len() as int),
                self@ == memory_after_load(old(self)@, file@, segs@, k as int),
            decreases segs@.len() - k,
        {
            let (p_type, p_vaddr, p_filesz, p_offset) = segs[k];
            assert(segment_fits(segs@[k as int], file@.len() as int));
            if p_type == PT_LOAD && p_filesz > 0 {
                assert(p_offset + p_filesz <= file_len);
                self.copy_from_file(file, p_vaddr as u32, p_offset as usize, p_filesz as usize);
            }
            assert(segs@[k as int] == (p_type, p_vaddr, p_filesz, p_offset));
            k = k + 1;
        }
    }

    /// Load the program image described by an ELF header's entry point
    /// `e_entry` and its program headers `segments`, whose bytes are in
    /// `file_data`: every LOAD segment's file bytes are copied to its
    /// virtual address (truncated to 32 bits), in program-header order, and
    /// the entry point is returned (zero when it does not fit in 32 bits).
    ///
    /// Memory is left unchanged when a LOAD segment does not fit in the file
    /// or in the address space; the first such segment is reported.
    pub fn load_segments(&mut self, file_data: &[u8], e_entry: u64, segments: &Vec<SegmentHeader>) -> (r: Result<
        u32,
        ElfLoadError,
    >)
        ensures
            match first_misfit(segments@, file_data@.len() as int, 0) {
                Some(k) => r == Err::<u32, ElfLoadError>(ElfLoadError::SegmentOutOfRange { index: k as usize })
                    && final(self)@ == old(self)@,
                None => r == Ok::<u32, ElfLoadError>(entry_point(e_entry))
                    && final(self)@ == memory_after_load(old(self)@, file_data@, segments@, segments@.len() as int),
            },
    {
        if let Some(k) = find_misfit(segments, file_data.len()) {
            return Err(ElfLoadError::SegmentOutOfRange { index: k });
        }
        proof {
            lemma_no_misfit(segments@, file_data@.len() as int, 0);
        }
        self.load_fitting_segments(file_data, segments);
        let entry: u32 = if e_entry <= u32::MAX as u64 { e_entry as u32 } else { 0 };
        Ok(entry)
    }

    /// Load an ELF executable held in `file_data`: the `elf` crate parses
    /// it, then its program image is loaded as
    /// [`Memory::load_segments`] states (a file without a program header
    /// table has no segments).
    ///
    /// Memory is left unchanged when the file does not parse or a LOAD
    /// segment does not fit.
    pub fn load_elf(&mut self, file_data: &[u8]) -> (r: Result<u32, ElfLoadError>)
        ensures
            match elf_parse_result(file_data@) {
                None => r matches Err(ElfLoadError::Parse { .. }) && final(self)@ == old(self)@,
                Some((e_entry, segs)) => {
                    let s = listed_segments(segs);
                    match first_misfit(s, file_data@.len() as int, 0) {
                        Some(k) => r == Err::<u32, ElfLoadError>(ElfLoadError::SegmentOutOfRange { index: k as usize })
                            && final(self)@ == old(self)@,
                        None => r == Ok::<u32, ElfLoadError>(entry_point(e_entry))
                            && final(self)@ == memory_after_load(old(self)@, file_data@, s, s.len() as int),
                    }
                },
            },
    {
        let (e_entry, segments) = match parse_elf(file_data) {
            Ok(parsed) => parsed,
            Err(e) => {
                return Err(ElfLoadError::Parse { message: parse_error_message(&e) });
            },
        };
        let segs: Vec<SegmentHeader> = match segments {
            Some(v) => v,
            None => Vec::new(),
        };
        assert(segs@ == listed_segments(segments_view(segments)));
        self.load_segments(file_data, e_entry, &segs)
    }
}

} // verus!
