//! The flat 64 KiB address space.

use vstd::prelude::*;

verus! {

/// Number of byte cells in the address space.
pub const MEMORY_SIZE: usize = 65536;

/// The word whose low byte is `lo` and whose high byte is `hi`.
pub open spec fn word_of(lo: u8, hi: u8) -> u16 {
    (hi as int * 256 + lo as int) as u16
}

/// Low byte of a word.
pub open spec fn low_byte(word: u16) -> u8 {
    (word as int % 256) as u8
}

/// High byte of a word.
pub open spec fn high_byte(word: u16) -> u8 {
    (word as int / 256) as u8
}

/// The address that follows `addr`, wrapping from the top of the address
/// space to zero.
pub open spec fn next_addr(addr: u16) -> u16 {
    if addr == 0xFFFF {
        0u16
    } else {
        (addr as int + 1) as u16
    }
}

/// The little-endian word stored in `cells` at `addr`: low byte at `addr`,
/// high byte at the address that follows it.
pub open spec fn word_at(cells: Seq<u8>, addr: u16) -> u16 {
    word_of(cells[addr as int], cells[next_addr(addr) as int])
}

/// `cells` after the word `word` is stored at `addr` in little-endian order.
/// The low byte is written first, so at address `0xFFFF` the high byte lands
/// in cell zero.
pub open spec fn store_word(cells: Seq<u8>, addr: u16, word: u16) -> Seq<u8> {
    cells.update(addr as int, low_byte(word)).update(next_addr(addr) as int, high_byte(word))
}

/// A word stored at any address is read back from that address unchanged,
/// in particular at every address up to `0xFFFE`, where both bytes lie
/// inside the address space without wrapping.
pub proof fn lemma_word_round_trip(cells: Seq<u8>, addr: u16, word: u16)
    requires
        cells.len() == 65536,
    ensures
        word_at(store_word(cells, addr, word), addr) == word,
{
}

/// Storing a word touches only the two cells it occupies.
pub proof fn lemma_store_word_frame(cells: Seq<u8>, addr: u16, word: u16, other: u16)
    requires
        cells.len() == 65536,
        other != addr,
        other != next_addr(addr),
    ensures
        store_word(cells, addr, word)[other as int] == cells[other as int],
        store_word(cells, addr, word).len() == 65536,
{
}

/// A byte-addressable memory of 65536 cells. Every 16-bit value is a valid
/// address; there is no protection, mapping or mirroring.
pub struct Memory {
    cells: [u8; 65536],
}

impl View for Memory {
    type V = Seq<u8>;

    closed spec fn view(&self) -> Seq<u8> {
        self.cells@
    }
}

impl Memory {
    /// A memory with every cell zero.
    pub fn new() -> (r: Self)
        ensures
            r@.len() == 65536,
            forall|i: int| 0 <= i < 65536 ==> r@[i] == 0u8,
    {
        Memory { cells: [0u8; 65536] }
    }

    /// The view of any memory has exactly 65536 cells.
    pub proof fn lemma_len(&self)
        ensures
            self@.len() == 65536,
    {
    }

    /// The byte at `addr`.
    pub fn read(&self, addr: u16) -> (r: u8)
        ensures
            self@.len() == 65536,
            r == self@[addr as int],
    {
        self.cells[addr as usize]
    }

    /// Stores `data` at `addr`; every other cell keeps its value.
    pub fn write(&mut self, addr: u16, data: u8)
        ensures
            final(self)@ == old(self)@.update(addr as int, data),
            final(self)@.len() == 65536,
    {
        self.cells[addr as usize] = data;
    }

    /// The little-endian word at `addr`.
    pub fn read16(&self, addr: u16) -> (r: u16)
        ensures
            r == word_at(self@, addr),
    {
        let lo: u8 = self.read(addr);
        let hi: u8 = self.read(addr.wrapping_add(1));
        assert(((hi as u16) << 8) | (lo as u16) == (hi as u16) * 256 + (lo as u16)) by (bit_vector);
        ((hi as u16) << 8) | (lo as u16)
    }

    /// Stores `word` at `addr` in little-endian order.
    pub fn write16(&mut self, addr: u16, word: u16)
        ensures
            final(self)@ == store_word(old(self)@, addr, word),
            final(self)@.len() == 65536,
    {
        assert(word >> 8 == word / 256 && word & 0xff == word % 256) by (bit_vector);
        let hi: u8 = (word >> 8) as u8;
        let lo: u8 = (word & 0xff) as u8;
        self.write(addr, lo);
        self.write(addr.wrapping_add(1), hi);
    }
}

} // verus!
