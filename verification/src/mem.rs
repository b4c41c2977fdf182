//! The machine's flat byte memory.
//!
//! Words are stored little-endian: the byte at the lower address is the least
//! significant.  The functions here are the raw, bounds-`requires` accessors
//! shared by the loader, the devices and the thread cores; the window-checked
//! accessors that report violations through the error flag live on
//! [`crate::cpu::ThreadCore`].

use vstd::prelude::*;

verus! {

/// The little-endian word formed by the four bytes of `mem` starting at
/// `addr`.
pub open spec fn word_le(mem: Seq<u8>, addr: int) -> u32
    recommends
        0 <= addr,
        addr + 4 <= mem.len(),
{
    (mem[addr] as u32) | ((mem[addr + 1] as u32) << 8) | ((mem[addr + 2] as u32) << 16) | ((
    mem[addr + 3] as u32) << 24)
}

/// Byte `k` (counting from the least significant) of the little-endian
/// encoding of `v`.
pub open spec fn word_byte(v: u32, k: int) -> u8
    recommends
        0 <= k < 4,
{
    ((v >> ((8 * k) as u32)) & 0xFF) as u8
}

/// All four byte extractions of a word are in range, and reassembling them
/// yields the word back.
pub proof fn lemma_word_bytes(v: u32)
    by (bit_vector)
    ensures
        v >> 0 == v,
        v & 0xFF < 256,
        (v >> 8) & 0xFF < 256,
        (v >> 16) & 0xFF < 256,
        (v >> 24) & 0xFF < 256,
        ((v & 0xFF) as u8 as u32) | (((v >> 8) & 0xFF) as u8 as u32) << 8 | (((v >> 16)
            & 0xFF) as u8 as u32) << 16 | (((v >> 24) & 0xFF) as u8 as u32) << 24 == v,
{
}

/// A contiguous byte memory.
pub struct Memory {
    pub bytes: Vec<u8>,
}

impl View for Memory {
    type V = Seq<u8>;

    open spec fn view(&self) -> Seq<u8> {
        self.bytes@
    }
}

impl Memory {
    /// A zero-filled memory of `size` bytes.
    pub fn new_zeroed(size: usize) -> (m: Memory)
        ensures
            m@ == Seq::new(size as nat, |i: int| 0u8),
    {
        let mut bytes: Vec<u8> = Vec::new();
        let mut i: usize = 0;
        while i < size
            invariant
                i <= size,
                bytes@ =~= Seq::new(i as nat, |j: int| 0u8),
            decreases size - i,
        {
            bytes.push(0);
            i = i + 1;
        }
        proof {
            assert(bytes@ =~= Seq::new(size as nat, |i: int| 0u8));
        }
        Memory { bytes }
    }

    pub fn len(&self) -> (n: usize)
        ensures
            n == self@.len(),
    {
        self.bytes.len()
    }

    pub fn read_byte(&self, addr: usize) -> (b: u8)
        requires
            addr < self@.len(),
        ensures
            b == self@[addr as int],
    {
        self.bytes[addr]
    }

    pub fn write_byte(&mut self, addr: usize, b: u8)
        requires
            addr < old(self)@.len(),
        ensures
            final(self)@ == old(self)@.update(addr as int, b),
    {
        self.bytes[addr] = b;
    }

    /// Reads the little-endian word at `addr`.
    pub fn read_word(&self, addr: usize) -> (w: u32)
        requires
            addr + 4 <= self@.len(),
        ensures
            w == word_le(self@, addr as int),
    {
        let n = self.bytes.len();
        (self.bytes[addr] as u32) | ((self.bytes[addr + 1] as u32) << 8) | ((self.bytes[addr
            + 2] as u32) << 16) | ((self.bytes[addr + 3] as u32) << 24)
    }

    /// Stores `v` little-endian at `addr`.
    pub fn write_word(&mut self, addr: usize, v: u32)
        requires
            addr + 4 <= old(self)@.len(),
        ensures
            final(self)@ == old(self)@.update(addr as int, word_byte(v, 0)).update(
                addr + 1,
                word_byte(v, 1),
            ).update(addr + 2, word_byte(v, 2)).update(addr + 3, word_byte(v, 3)),
    {
        proof {
            lemma_word_bytes(v);
        }
        let n = self.bytes.len();
        self.bytes[addr] = (v & 0xFF) as u8;
        self.bytes[addr + 1] = ((v >> 8) & 0xFF) as u8;
        self.bytes[addr + 2] = ((v >> 16) & 0xFF) as u8;
        self.bytes[addr + 3] = ((v >> 24) & 0xFF) as u8;
    }
}

/// Writing a word and reading it back yields the word: the byte extraction
/// of [`word_byte`] inverts the assembly of [`word_le`].
pub proof fn lemma_word_le_roundtrip(mem: Seq<u8>, addr: int, v: u32)
    requires
        0 <= addr,
        addr + 4 <= mem.len(),
        mem[addr] == word_byte(v, 0),
        mem[addr + 1] == word_byte(v, 1),
        mem[addr + 2] == word_byte(v, 2),
        mem[addr + 3] == word_byte(v, 3),
    ensures
        word_le(mem, addr) == v,
{
    lemma_word_bytes(v);
    assert(word_le(mem, addr) == ((v & 0xFF) as u8 as u32) | (((v >> 8) & 0xFF) as u8 as u32) << 8
        | (((v >> 16) & 0xFF) as u8 as u32) << 16 | (((v >> 24) & 0xFF) as u8 as u32) << 24);
}

} // verus!
