//! Host-side access to the simulated machine: writing and dumping regions
//! of DRAM, sizing a memory dump taken as an image, and reading the
//! addresses and sizes the host is given as text.
use crate::memory::{byte_at, Memory};
use crate::memory_map::{is_valid_dram_range, spec_valid_dram_range};
use vstd::prelude::*;
use vstd::string::StringSliceAdditionalSpecFns;

verus! {

/// Value of an ASCII digit in the given radix (10 or 16; hexadecimal
/// letters in either case), or `None` when it is not one.
pub open spec fn digit_value(b: u8, radix: u32) -> Option<u32> {
    let v: int = if 48 <= b <= 57 {
        b - 48
    } else if 97 <= b <= 102 {
        b - 87
    } else if 65 <= b <= 70 {
        b - 55
    } else {
        radix as int
    };
    if v < radix { Some(v as u32) } else { None }
}

/// Every byte is a digit of the radix.
pub open spec fn all_digits(d: Seq<u8>, radix: u32) -> bool {
    forall|i: int| 0 <= i < d.len() ==> (#[trigger] digit_value(d[i], radix)) is Some
}

/// The number a string of digits stands for, most significant first.
pub open spec fn digits_value(d: Seq<u8>, radix: u32) -> int
    decreases d.len(),
{
    if d.len() == 0 {
        0
    } else {
        digits_value(d.drop_last(), radix) * radix + digit_value(d.last(), radix).unwrap()
    }
}

/// Unsigned number in the given radix: an optional `+`, then one or more
/// digits, standing for a value that fits in 32 bits.
pub open spec fn spec_parse_radix(b: Seq<u8>, radix: u32) -> Option<u32> {
    let d = if b.len() > 0 && b[0] == 43 { b.drop_first() } else { b };
    if d.len() > 0 && all_digits(d, radix) && digits_value(d, radix) <= u32::MAX {
        Some(digits_value(d, radix) as u32)
    } else {
        None
    }
}

/// A number given as text: hexadecimal after a `0x` prefix, decimal otherwise.
pub open spec fn spec_parse_number(b: Seq<u8>) -> Option<u32> {
    if b.len() >= 2 && b[0] == 48 && b[1] == 120 {
        spec_parse_radix(b.subrange(2, b.len() as int), 16)
    } else {
        spec_parse_radix(b, 10)
    }
}

/// A string of digits is worth at least any of its prefixes.
proof fn lemma_digits_value_prefix(d: Seq<u8>, radix: u32, k: int)
    requires
        all_digits(d, radix),
        1 <= radix,
        0 <= k <= d.len(),
    ensures
        digits_value(d, radix) >= digits_value(d.subrange(0, k), radix),
        digits_value(d, radix) >= 0,
    decreases d.len(),
{
    if d.len() == 0 {
        assert(d.subrange(0, k) =~= d);
    } else if k == d.len() {
        assert(d.subrange(0, k) =~= d);
        lemma_digits_value_prefix(d.drop_last(), radix, 0);
        assert(digit_value(d[d.len() - 1], radix) is Some);
        assert(digits_value(d.drop_last(), radix) * radix >= 0) by (nonlinear_arith)
            requires
                digits_value(d.drop_last(), radix) >= 0,
                radix >= 1,
        ;
    } else {
        lemma_digits_value_prefix(d.drop_last(), radix, k);
        assert(d.drop_last().subrange(0, k) =~= d.subrange(0, k));
        assert(digit_value(d[d.len() - 1], radix) is Some);
        assert(digits_value(d.drop_last(), radix) * radix >= digits_value(d.drop_last(), radix)) by (nonlinear_arith)
            requires
                digits_value(d.drop_last(), radix) >= 0,
                radix >= 1,
        ;
    }
}

/// Value of the digit `b` in `radix`.
fn digit(b: u8, radix: u32) -> (r: Option<u32>)
    requires
        radix == 10 || radix == 16,
    ensures
        r == digit_value(b, radix),
{
    let v: u32 = if 48 <= b && b <= 57 {
        (b - 48) as u32
    } else if 97 <= b && b <= 102 {
        (b - 87) as u32
    } else if 65 <= b && b <= 70 {
        (b - 55) as u32
    } else {
        radix
    };
    if v < radix { Some(v) } else { None }
}

/// Parse the bytes of `b` from `start` on as a number in `radix`.
fn parse_radix(b: &[u8], start: usize, radix: u32) -> (r: Option<u32>)
    requires
        start <= b@.len(),
        radix == 10 || radix == 16,
    ensures
        r == spec_parse_radix(b@.subrange(start as int, b@.len() as int), radix),
{
    let ghost s = b@.subrange(start as int, b@.len() as int);
    let n = b.len();
    let mut first = start;
    if first < n && b[first] == 43 {
        first = first + 1;
    }
    let ghost d = b@.subrange(first as int, n as int);
    assert(d =~= (if s.len() > 0 && s[0] == 43 { s.drop_first() } else { s }));
    if first == n {
        return None;
    }
    let mut acc: u32 = 0;
    let mut i = first;
    assert(b@.subrange(first as int, first as int) =~= Seq::<u8>::empty());
    while i < n
        invariant
            first <= i <= n,
            n == b@.len(),
            radix == 10 || radix == 16,
            d == b@.subrange(first as int, n as int),
            s == b@.subrange(start as int, n as int),
            d == (if s.len() > 0 && s[0] == 43 { s.drop_first() } else { s }),
            d.len() > 0,
            all_digits(b@.subrange(first as int, i as int), radix),
            acc == digits_value(b@.subrange(first as int, i as int), radix),
        decreases n - i,
    {
        let ghost p = b@.subrange(first as int, i as int);
        let ghost p1 = b@.subrange(first as int, i as int + 1);
        assert(p1.drop_last() =~= p);
        assert(p1.last() == b@[i as int]);
        let dv = match digit(b[i], radix) {
            Some(v) => v,
            None => {
                assert(!all_digits(d, radix)) by {
                    assert(d[i - first] == b@[i as int]);
                    assert(digit_value(d[i - first], radix) is None);
                }
                return None;
            },
        };
        assert(all_digits(p1, radix)) by {
            assert forall|k: int| 0 <= k < p1.len() implies (#[trigger] digit_value(p1[k], radix)) is Some by {
                if k < p.len() {
                    assert(p1[k] == p[k]);
                }
            }
        }
        assert(digits_value(p1, radix) == acc * radix + dv);
        let next = match acc.checked_mul(radix) {
            Some(m) => m.checked_add(dv),
            None => None,
        };
        match next {
            Some(v) => {
                acc = v;
            },
            None => {
                proof {
                    if all_digits(d, radix) {
                        assert(d.subrange(0, i - first + 1) =~= p1);
                        lemma_digits_value_prefix(d, radix, i - first + 1);
                    }
                }
                return None;
            },
        }
        i = i + 1;
    }
    assert(b@.subrange(first as int, n as int) =~= d);
    Some(acc)
}

/// Parse a number given as text: hexadecimal after a `0x` prefix, decimal
/// otherwise, each with an optional `+`; `None` unless it is well formed
/// and fits in 32 bits.
pub fn parse_number(s: &str) -> (r: Option<u32>)
    ensures
        r == spec_parse_number(s.spec_bytes()),
{
    let b = s.as_bytes();
    if b.len() >= 2 && b[0] == 48 && b[1] == 120 {
        parse_radix(b, 2, 16)
    } else {
        let r = parse_radix(b, 0, 10);
        assert(b@.subrange(0, b@.len() as int) =~= b@);
        r
    }
}

/// Number of bytes of a `width` by `height` RGBA8 image, or why it does
/// not fit in 32 bits.
pub fn image_byte_count(width: u32, height: u32) -> (r: Result<u32, String>)
    ensures
        width * height > u32::MAX ==> r is Err,
        width * height <= u32::MAX && 4 * width * height > u32::MAX ==> r is Err,
        4 * width * height <= u32::MAX ==> r == Ok::<u32, String>((4 * width * height) as u32),
{
    let pixel_count = match width.checked_mul(height) {
        Some(p) => p,
        None => {
            assert(4 * width * height > u32::MAX) by (nonlinear_arith)
                requires
                    width * height > u32::MAX,
            ;
            return Err("Image dimensions overflow".to_owned());
        },
    };
    match pixel_count.checked_mul(4) {
        Some(total) => {
            assert(total == 4 * width * height) by (nonlinear_arith)
                requires
                    total == pixel_count * 4,
                    pixel_count == width * height,
            ;
            Ok(total)
        },
        None => {
            assert(4 * width * height > u32::MAX) by (nonlinear_arith)
                requires
                    pixel_count * 4 > u32::MAX,
                    pixel_count == width * height,
            ;
            Err("Image size overflow".to_owned())
        },
    }
}

/// Memory after writing `data` at the addresses starting at `start`.
pub open spec fn spec_write_region(m: Map<u32, u8>, start: u32, data: Seq<u8>) -> Map<u32, u8> {
    Map::new(
        |a: u32| m.contains_key(a) || (start <= a && a < start + data.len()),
        |a: u32| if start <= a && a < start + data.len() { data[a - start] } else { m[a] },
    )
}

/// Write `data` into DRAM starting at `start_addr`.
///
/// The whole range must lie in DRAM, else nothing is written and `false`
/// is returned; an empty slice writes nothing and succeeds.
pub fn write_memory_region(memory: &mut Memory, start_addr: u32, data: &[u8]) -> (r: bool)
    requires
        data@.len() <= u32::MAX,
    ensures
        r == (data@.len() == 0 || spec_valid_dram_range(start_addr, data@.len() as u32)),
        r ==> final(memory)@ == spec_write_region(old(memory)@, start_addr, data@),
        !r ==> final(memory)@ == old(memory)@,
{
    let n = data.len();
    if n == 0 {
        assert(spec_write_region(memory@, start_addr, data@) =~= memory@);
        return true;
    }
    if !is_valid_dram_range(start_addr, n as u32) {
        return false;
    }
    let mut i: usize = 0;
    while i < n
        invariant
            i <= n,
            n == data@.len(),
            n <= u32::MAX,
            spec_valid_dram_range(start_addr, n as u32),
            memory@ == spec_write_region(old(memory)@, start_addr, data@.subrange(0, i as int)),
        decreases n - i,
    {
        memory.write_byte(start_addr + i as u32, data[i]);
        i = i + 1;
        assert(memory@ =~= spec_write_region(old(memory)@, start_addr, data@.subrange(0, i as int)));
    }
    assert(data@.subrange(0, n as int) =~= data@);
    true
}

/// Bytes of a region dump: the memory's bytes when the region lies in
/// DRAM (or is empty), else zeros.
pub open spec fn spec_dump_region(m: Map<u32, u8>, start: u32, size: u32) -> Seq<u8> {
    if size == 0 || spec_valid_dram_range(start, size) {
        Seq::new(size as nat, |i: int| byte_at(m, (start + i) as u32))
    } else {
        Seq::new(size as nat, |i: int| 0u8)
    }
}

/// Dump `size` bytes of DRAM starting at `start_addr`; a region not
/// entirely in DRAM dumps as zeros.
pub fn dump_memory_region(memory: &Memory, start_addr: u32, size: u32) -> (r: Vec<u8>)
    ensures
        r@ == spec_dump_region(memory@, start_addr, size),
{
    let is_valid = size == 0 || is_valid_dram_range(start_addr, size);
    let mut out: Vec<u8> = Vec::new();
    let mut i: u32 = 0;
    while i < size
        invariant
            i <= size,
            is_valid == (size == 0 || spec_valid_dram_range(start_addr, size)),
            out@ =~= spec_dump_region(memory@, start_addr, size).subrange(0, i as int),
        decreases size - i,
    {
        let b = if is_valid { memory.read_byte(start_addr + i) } else { 0 };
        out.push(b);
        i = i + 1;
    }
    out
}

} // verus!
