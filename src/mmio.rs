//! Register access over a byte-addressed register space.
//!
//! Words are little-endian, as on LoongArch. Every access names its absolute
//! offset into the space; an access that does not fit is ruled out by the
//! caller's precondition.
use vstd::prelude::*;

verus! {

/// The little-endian 32-bit word whose first byte is at `a`.
pub open spec fn word_at(s: Seq<u8>, a: int) -> u32 {
    (s[a] as u32) | ((s[a + 1] as u32) << 8u32) | ((s[a + 2] as u32) << 16u32) | ((s[a + 3]
        as u32) << 24u32)
}

/// Byte `k` (0 is the least significant) of the word `v`.
pub open spec fn byte_of(v: u32, k: int) -> u8 {
    #[verifier::truncate]
    ((v >> (8 * k) as u32) as u8)
}

/// The space `s` after the word `v` is stored at `a`.
pub open spec fn store_word(s: Seq<u8>, a: int, v: u32) -> Seq<u8> {
    s.update(a, byte_of(v, 0)).update(a + 1, byte_of(v, 1)).update(a + 2, byte_of(v, 2)).update(
        a + 3,
        byte_of(v, 3),
    )
}

/// A register space: the bytes that a controller's register block holds.
pub struct Mmio {
    bytes: Vec<u8>,
}

impl View for Mmio {
    type V = Seq<u8>;

    closed spec fn view(&self) -> Seq<u8> {
        self.bytes@
    }
}

impl Mmio {
    /// A space of `size` bytes, all zero.
    pub fn new(size: usize) -> (r: Mmio)
        ensures
            r@ == Seq::new(size as nat, |_i: int| 0u8),
    {
        let mut bytes: Vec<u8> = Vec::new();
        let mut i: usize = 0;
        while i < size
            invariant
                i <= size,
                bytes@ == Seq::new(i as nat, |_i: int| 0u8),
            decreases size - i,
        {
            bytes.push(0u8);
            i = i + 1;
            assert(bytes@ =~= Seq::new(i as nat, |_i: int| 0u8));
        }
        Mmio { bytes }
    }

    /// The number of bytes in the space.
    pub fn len(&self) -> (r: usize)
        ensures
            r == self@.len(),
    {
        self.bytes.len()
    }

    /// The byte at `addr`.
    pub fn read8(&self, addr: usize) -> (r: u8)
        requires
            addr < self@.len(),
        ensures
            r == self@[addr as int],
    {
        self.bytes[addr]
    }
}

/// Reads the 32-bit register at `addr`.
pub fn read32(mem: &Mmio, addr: usize) -> (r: u32)
    requires
        addr + 4 <= mem@.len(),
    ensures
        r == word_at(mem@, addr as int),
{
    let _n = mem.bytes.len();
    let b0 = mem.bytes[addr] as u32;
    let b1 = mem.bytes[addr + 1] as u32;
    let b2 = mem.bytes[addr + 2] as u32;
    let b3 = mem.bytes[addr + 3] as u32;
    b0 | (b1 << 8u32) | (b2 << 16u32) | (b3 << 24u32)
}

/// Writes `val` to the 32-bit register at `addr`; nothing else changes.
pub fn write32(mem: &mut Mmio, addr: usize, val: u32)
    requires
        addr + 4 <= old(mem)@.len(),
    ensures
        final(mem)@ == store_word(old(mem)@, addr as int, val),
{
    let _n = mem.bytes.len();
    mem.bytes.set(addr, #[verifier::truncate] (val as u8));
    mem.bytes.set(addr + 1, #[verifier::truncate] ((val >> 8u32) as u8));
    mem.bytes.set(addr + 2, #[verifier::truncate] ((val >> 16u32) as u8));
    mem.bytes.set(addr + 3, #[verifier::truncate] ((val >> 24u32) as u8));
    assert(val >> 0u32 == val) by (bit_vector);
    assert(mem@ =~= store_word(old(mem)@, addr as int, val));
}

/// Writes `val` to the 8-bit register at `addr`; nothing else changes.
pub fn write8(mem: &mut Mmio, addr: usize, val: u8)
    requires
        addr < old(mem)@.len(),
    ensures
        final(mem)@ == old(mem)@.update(addr as int, val),
{
    mem.bytes.set(addr, val);
}

/// A word stored at `a` reads back unchanged.
pub proof fn lemma_word_round_trip(s: Seq<u8>, a: int, v: u32)
    requires
        0 <= a,
        a + 4 <= s.len(),
    ensures
        word_at(store_word(s, a, v), a) == v,
{
    let t = store_word(s, a, v);
    assert(t[a] == byte_of(v, 0));
    assert(t[a + 1] == byte_of(v, 1));
    assert(t[a + 2] == byte_of(v, 2));
    assert(t[a + 3] == byte_of(v, 3));
    assert(((#[verifier::truncate] ((v >> 0u32) as u8)) as u32) | (((#[verifier::truncate] ((v
        >> 8u32) as u8)) as u32) << 8u32) | (((#[verifier::truncate] ((v >> 16u32) as u8))
        as u32) << 16u32) | (((#[verifier::truncate] ((v >> 24u32) as u8)) as u32) << 24u32)
        == v) by (bit_vector);
}

/// A byte stored at `a` reads back unchanged.
pub proof fn lemma_byte_round_trip(s: Seq<u8>, a: int, v: u8)
    requires
        0 <= a < s.len(),
    ensures
        s.update(a, v)[a] == v,
{
}

} // verus!
