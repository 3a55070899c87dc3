//! Sparse byte-addressable memory.
use std::collections::HashMap;
use vstd::prelude::*;

verus! {

/// Byte stored at `addr`; addresses never written read as zero.
pub open spec fn byte_at(m: Map<u32, u8>, addr: u32) -> u8 {
    if m.contains_key(addr) {
        m[addr]
    } else {
        0
    }
}

/// Little-endian halfword assembled from two bytes.
pub open spec fn le_u16(b0: u8, b1: u8) -> u16 {
    ((b0 as u16) | ((b1 as u16) << 8u16)) as u16
}

/// Little-endian word assembled from four bytes.
pub open spec fn le_u32(b0: u8, b1: u8, b2: u8, b3: u8) -> u32 {
    ((b0 as u32) | ((b1 as u32) << 8u32) | ((b2 as u32) << 16u32) | ((b3 as u32) << 24u32)) as u32
}

/// Byte `k` (0 = least significant) of a word.
pub open spec fn word_byte(w: u32, k: int) -> u8 {
    if k == 0 {
        (w & 0xffu32) as u8
    } else if k == 1 {
        ((w >> 8u32) & 0xffu32) as u8
    } else if k == 2 {
        ((w >> 16u32) & 0xffu32) as u8
    } else {
        ((w >> 24u32) & 0xffu32) as u8
    }
}

/// Byte `k` (0 = least significant) of a halfword.
pub open spec fn half_byte(h: u16, k: int) -> u8 {
    if k == 0 {
        (h & 0xffu16) as u8
    } else {
        ((h >> 8u16) & 0xffu16) as u8
    }
}

/// Halfword stored little-endian at `addr` (second byte at the wrapped next address).
pub open spec fn half_at(m: Map<u32, u8>, addr: u32) -> u16 {
    le_u16(byte_at(m, addr), byte_at(m, addr.wrapping_add(1)))
}

/// Word stored little-endian at `addr` (later bytes at wrapped following addresses).
pub open spec fn word_at(m: Map<u32, u8>, addr: u32) -> u32 {
    le_u32(
        byte_at(m, addr),
        byte_at(m, addr.wrapping_add(1)),
        byte_at(m, addr.wrapping_add(2)),
        byte_at(m, addr.wrapping_add(3)),
    )
}

/// Memory after storing `data` little-endian at `addr`.
pub open spec fn store_word(m: Map<u32, u8>, addr: u32, data: u32) -> Map<u32, u8> {
    m.insert(addr, word_byte(data, 0))
        .insert(addr.wrapping_add(1), word_byte(data, 1))
        .insert(addr.wrapping_add(2), word_byte(data, 2))
        .insert(addr.wrapping_add(3), word_byte(data, 3))
}

/// Memory after storing `data` little-endian at `addr`.
pub open spec fn store_half(m: Map<u32, u8>, addr: u32, data: u16) -> Map<u32, u8> {
    m.insert(addr, half_byte(data, 0)).insert(addr.wrapping_add(1), half_byte(data, 1))
}

/// The four byte addresses of a word at `addr` are pairwise distinct.
pub proof fn lemma_word_addrs_distinct(addr: u32)
    ensures
        addr != addr.wrapping_add(1),
        addr != addr.wrapping_add(2),
        addr != addr.wrapping_add(3),
        addr.wrapping_add(1) != addr.wrapping_add(2),
        addr.wrapping_add(1) != addr.wrapping_add(3),
        addr.wrapping_add(2) != addr.wrapping_add(3),
{
}

/// Splitting a word into bytes and reassembling it gives the word back.
pub proof fn lemma_le_u32_of_bytes(w: u32)
    ensures
        le_u32(word_byte(w, 0), word_byte(w, 1), word_byte(w, 2), word_byte(w, 3)) == w,
{
    assert(((((w & 0xffu32) as u8) as u32) | ((((w >> 8u32) & 0xffu32) as u8 as u32) << 8u32) | ((
    ((w >> 16u32) & 0xffu32) as u8 as u32) << 16u32) | ((((w >> 24u32) & 0xffu32) as u8 as u32)
        << 24u32)) == w) by (bit_vector);
}

/// Splitting a halfword into bytes and reassembling it gives the halfword back.
pub proof fn lemma_le_u16_of_bytes(h: u16)
    ensures
        le_u16(half_byte(h, 0), half_byte(h, 1)) == h,
{
    assert(((((h & 0xffu16) as u8) as u16) | ((((h >> 8u16) & 0xffu16) as u8 as u16) << 8u16))
        == h) by (bit_vector);
}

/// Reading a word right after writing it at the same address gives the written value.
pub proof fn lemma_word_read_after_write(m: Map<u32, u8>, addr: u32, data: u32)
    ensures
        word_at(store_word(m, addr, data), addr) == data,
{
    lemma_word_addrs_distinct(addr);
    lemma_le_u32_of_bytes(data);
}

/// Reading a halfword right after writing it at the same address gives the written value.
pub proof fn lemma_half_read_after_write(m: Map<u32, u8>, addr: u32, data: u16)
    ensures
        half_at(store_half(m, addr, data), addr) == data,
{
    lemma_word_addrs_distinct(addr);
    lemma_le_u16_of_bytes(data);
}

/// Reading a byte right after writing it at the same address gives the written value.
pub proof fn lemma_byte_read_after_write(m: Map<u32, u8>, addr: u32, data: u8)
    ensures
        byte_at(m.insert(addr, data), addr) == data,
{
}

/// A word write changes only the four bytes it covers.
pub proof fn lemma_word_write_frame(m: Map<u32, u8>, addr: u32, data: u32, other: u32)
    requires
        other != addr,
        other != addr.wrapping_add(1),
        other != addr.wrapping_add(2),
        other != addr.wrapping_add(3),
    ensures
        byte_at(store_word(m, addr, data), other) == byte_at(m, other),
{
}

/// A halfword write changes only the two bytes it covers.
pub proof fn lemma_half_write_frame(m: Map<u32, u8>, addr: u32, data: u16, other: u32)
    requires
        other != addr,
        other != addr.wrapping_add(1),
    ensures
        byte_at(store_half(m, addr, data), other) == byte_at(m, other),
{
}

/// A word is the little-endian combination of its two halfwords.
pub proof fn lemma_word_is_two_halves(m: Map<u32, u8>, addr: u32)
    ensures
        word_at(m, addr) == (half_at(m, addr) as u32) | ((half_at(m, addr.wrapping_add(2)) as u32)
            << 16u32),
{
    let b0 = byte_at(m, addr);
    let b1 = byte_at(m, addr.wrapping_add(1));
    let b2 = byte_at(m, addr.wrapping_add(2));
    let b3 = byte_at(m, addr.wrapping_add(3));
    assert(addr.wrapping_add(2).wrapping_add(1) == addr.wrapping_add(3));
    assert(((b0 as u32) | ((b1 as u32) << 8u32) | ((b2 as u32) << 16u32) | ((b3 as u32) << 24u32))
        == ((((b0 as u16) | ((b1 as u16) << 8u16)) as u16 as u32) | ((((b2 as u16) | ((b3 as u16)
        << 8u16)) as u16 as u32) << 16u32))) by (bit_vector);
}

/// Memory model for the RISC-V CPU simulator: a sparse map from address to
/// byte. Every address that was never written reads as zero.
pub struct Memory {
    data: HashMap<u32, u8>,
}

impl View for Memory {
    type V = Map<u32, u8>;

    closed spec fn view(&self) -> Map<u32, u8> {
        self.data@
    }
}

impl Memory {
    /// Create a new, empty memory.
    pub fn new() -> (m: Self)
        ensures
            m@ == Map::<u32, u8>::empty(),
    {
        Memory { data: HashMap::new() }
    }

    fn get(&self, addr: u32) -> (r: u8)
        ensures
            r == byte_at(self@, addr),
    {
        match self.data.get(&addr) {
            Some(v) => *v,
            None => 0,
        }
    }

    /// Read a single byte.
    pub fn read_byte(&self, addr: u32) -> (r: u8)
        ensures
            r == byte_at(self@, addr),
    {
        self.get(addr)
    }

    /// Read a little-endian halfword; no alignment is applied.
    pub fn read_halfword(&self, addr: u32) -> (r: u16)
        ensures
            r == half_at(self@, addr),
    {
        let b0 = self.get(addr) as u16;
        let b1 = self.get(addr.wrapping_add(1)) as u16;
        b0 | (b1 << 8u16)
    }

    /// Read a little-endian word; no alignment is applied, the bytes come
    /// from the exact address and the three (wrapping) addresses after it.
    pub fn read_word(&self, addr: u32) -> (r: u32)
        ensures
            r == word_at(self@, addr),
    {
        let b0 = self.get(addr) as u32;
        let b1 = self.get(addr.wrapping_add(1)) as u32;
        let b2 = self.get(addr.wrapping_add(2)) as u32;
        let b3 = self.get(addr.wrapping_add(3)) as u32;
        b0 | (b1 << 8u32) | (b2 << 16u32) | (b3 << 24u32)
    }

    /// Write a single byte.
    pub fn write_byte(&mut self, addr: u32, data: u8)
        ensures
            final(self)@ == old(self)@.insert(addr, data),
    {
        self.data.insert(addr, data);
    }

    /// Write a little-endian halfword.
    pub fn write_halfword(&mut self, addr: u32, data: u16)
        ensures
            final(self)@ == store_half(old(self)@, addr, data),
    {
        self.data.insert(addr, (data & 0xFF) as u8);
        self.data.insert(addr.wrapping_add(1), ((data >> 8u16) & 0xFF) as u8);
    }

    /// Write a little-endian word.
    pub fn write_word(&mut self, addr: u32, data: u32)
        ensures
            final(self)@ == store_word(old(self)@, addr, data),
    {
        self.data.insert(addr, (data & 0xFF) as u8);
        self.data.insert(addr.wrapping_add(1), ((data >> 8u32) & 0xFF) as u8);
        self.data.insert(addr.wrapping_add(2), ((data >> 16u32) & 0xFF) as u8);
        self.data.insert(addr.wrapping_add(3), ((data >> 24u32) & 0xFF) as u8);
    }

    /// Clear all memory contents.
    pub fn reset(&mut self)
        ensures
            final(self)@ == Map::<u32, u8>::empty(),
    {
        self.data.clear();
    }
}

impl Default for Memory {
    fn default() -> (m: Self)
        ensures
            m@ == Map::<u32, u8>::empty(),
    {
        Self::new()
    }
}

} // verus!
