//! The platform interrupt controller (PCH-PIC): per-line masking and the
//! routing of each line to the vector of the same number.
use vstd::prelude::*;
use crate::mmio::{read32, write32, write8, store_word, word_at, Mmio};

verus! {

/// Lines per 32-bit mask, edge or polarity register.
pub const PIC_COUNT_PER_REG: usize = 32;

/// Register banks of the controller: lines `0..64`.
pub const PIC_REG_COUNT: usize = 2;

/// Offset of the first mask register (a set bit masks its line).
pub const PCH_PIC_MASK: usize = 0x20;

/// Offset of the first edge register (0: level triggered).
pub const PCH_PIC_EDGE: usize = 0x60;

/// Offset of the first polarity register (0: active high).
pub const PCH_PIC_POL: usize = 0x3e0;

/// Offset of the vector routing table, one byte per line.
pub const PCH_INT_HTVEC: usize = 0x200;

/// Bytes from the base that the register block spans.
pub const PCH_PIC_SPAN: usize = 0x3e8;

/// The bit of `irq` within its bank's register.
pub open spec fn pic_line_bit(irq: nat) -> u32 {
    1u32 << ((irq % 32) as u32)
}

/// Offset of the mask register that holds `irq`.
pub open spec fn pic_mask_offset(irq: nat) -> int {
    PCH_PIC_MASK + (irq / 32) * 4
}

/// Whether offset `off` lies in the edge or polarity register of some bank.
pub open spec fn in_trigger_config(off: int) -> bool {
    (PCH_PIC_EDGE <= off < PCH_PIC_EDGE + 4 * PIC_REG_COUNT) || (PCH_PIC_POL <= off
        < PCH_PIC_POL + 4 * PIC_REG_COUNT)
}

/// Whether bank `i` of the block at `base` reads as level triggered,
/// active high: its edge and polarity registers hold 0.
pub open spec fn trigger_config_cleared(s: Seq<u8>, base: int, i: int) -> bool {
    &&& word_at(s, base + PCH_PIC_EDGE + 4 * i) == 0
    &&& word_at(s, base + PCH_PIC_POL + 4 * i) == 0
}

/// A handle on one platform controller: the offset of its register block.
#[derive(Clone, Copy)]
pub struct PchPic {
    mmio_base: usize,
}

impl PchPic {
    /// Where the controller's register block starts.
    pub closed spec fn base(&self) -> int {
        self.mmio_base as int
    }

    /// Whether the whole register block lies in `s`.
    pub open spec fn fits(&self, s: Seq<u8>) -> bool {
        self.base() + PCH_PIC_SPAN <= s.len()
    }

    /// A handle on the controller whose registers start at `mmio_base`.
    pub fn new(mmio_base: usize) -> (r: PchPic)
        ensures
            r.base() == mmio_base,
    {
        PchPic { mmio_base }
    }

    fn read_w(&self, mem: &Mmio, off: usize) -> (r: u32)
        requires
            self.base() + off + 4 <= mem@.len(),
        ensures
            r == word_at(mem@, self.base() + off),
    {
        let _n = mem.len();
        read32(mem, self.mmio_base + off)
    }

    fn write_w(&self, mem: &mut Mmio, off: usize, val: u32)
        requires
            self.base() + off + 4 <= old(mem)@.len(),
        ensures
            final(mem)@ == store_word(old(mem)@, self.base() + off, val),
    {
        let _n = mem.len();
        write32(mem, self.mmio_base + off, val)
    }

    /// Sets every line to level triggered, active high: each bank's edge and
    /// polarity registers become 0, and nothing else changes.
    pub fn init(&self, mem: &mut Mmio)
        requires
            self.fits(old(mem)@),
        ensures
            final(mem)@.len() == old(mem)@.len(),
            forall|i: int|
                0 <= i < PIC_REG_COUNT ==> #[trigger] trigger_config_cleared(
                    final(mem)@,
                    self.base(),
                    i,
                ),
            forall|a: int|
                0 <= a < old(mem)@.len() && !in_trigger_config(a - self.base())
                    ==> #[trigger] final(mem)@[a] == old(mem)@[a],
    {
        let ghost s0 = mem@;
        let ghost b = self.base();
        let mut i: usize = 0;
        while i < PIC_REG_COUNT
            invariant
                i <= PIC_REG_COUNT,
                self.fits(s0),
                b == self.base(),
                mem@.len() == s0.len(),
                forall|j: int| 0 <= j < i ==> #[trigger] trigger_config_cleared(mem@, b, j),
                forall|a: int|
                    0 <= a < s0.len() && !in_trigger_config(a - b) ==> #[trigger] mem@[a]
                        == s0[a],
            decreases PIC_REG_COUNT - i,
        {
            let ghost prev = mem@;
            self.write_w(mem, PCH_PIC_EDGE + 4 * i, 0);
            proof {
                crate::mmio::lemma_word_round_trip(prev, b + PCH_PIC_EDGE + 4 * i, 0);
            }
            let ghost mid = mem@;
            self.write_w(mem, PCH_PIC_POL + 4 * i, 0);
            proof {
                crate::mmio::lemma_word_round_trip(mid, b + PCH_PIC_POL + 4 * i, 0);
                assert forall|j: int| 0 <= j < i + 1 implies #[trigger] trigger_config_cleared(
                    mem@,
                    b,
                    j,
                ) by {
                    let e = b + PCH_PIC_EDGE + 4 * j;
                    let p = b + PCH_PIC_POL + 4 * j;
                    if j < i {
                        assert(trigger_config_cleared(prev, b, j));
                    }
                    assert(mem@[e] == mid[e] && mem@[e + 1] == mid[e + 1] && mem@[e + 2] == mid[e
                        + 2] && mem@[e + 3] == mid[e + 3]);
                    if j < i {
                        assert(mid[p] == prev[p] && mid[p + 1] == prev[p + 1] && mid[p + 2]
                            == prev[p + 2] && mid[p + 3] == prev[p + 3]);
                        assert(mid[e] == prev[e] && mid[e + 1] == prev[e + 1] && mid[e + 2]
                            == prev[e + 2] && mid[e + 3] == prev[e + 3]);
                    }
                }
            }
            i = i + 1;
        }
    }

    /// The register offset and the bit within it that stand for `irq`.
    fn split_bit(irq: usize) -> (r: (usize, u32))
        requires
            irq < PIC_COUNT_PER_REG * PIC_REG_COUNT,
        ensures
            r.0 == (irq / 32) * 4,
            r.1 == pic_line_bit(irq as nat),
    {
        (irq / PIC_COUNT_PER_REG * 4, 1u32 << ((irq % PIC_COUNT_PER_REG) as u32))
    }

    /// Unmasks `irq` (clears its bit in its bank's mask register) and routes it
    /// to the vector of the same number.
    pub fn enable_irq(&self, mem: &mut Mmio, irq: usize)
        requires
            self.fits(old(mem)@),
            irq < PIC_COUNT_PER_REG * PIC_REG_COUNT,
        ensures
            final(mem)@ == store_word(
                old(mem)@,
                self.base() + pic_mask_offset(irq as nat),
                word_at(old(mem)@, self.base() + pic_mask_offset(irq as nat)) & !pic_line_bit(
                    irq as nat,
                ),
            ).update(self.base() + PCH_INT_HTVEC + irq, irq as u8),
    {
        let (offset, bit) = Self::split_bit(irq);
        let addr = PCH_PIC_MASK + offset;
        let cur = self.read_w(mem, addr);
        self.write_w(mem, addr, cur & !bit);
        let _n = mem.len();
        write8(mem, self.mmio_base + PCH_INT_HTVEC + irq, irq as u8);
    }

    /// Masks `irq`: sets its bit in its bank's mask register.
    pub fn disable_irq(&self, mem: &mut Mmio, irq: usize)
        requires
            self.fits(old(mem)@),
            irq < PIC_COUNT_PER_REG * PIC_REG_COUNT,
        ensures
            final(mem)@ == store_word(
                old(mem)@,
                self.base() + pic_mask_offset(irq as nat),
                word_at(old(mem)@, self.base() + pic_mask_offset(irq as nat)) | pic_line_bit(
                    irq as nat,
                ),
            ),
    {
        let (offset, bit) = Self::split_bit(irq);
        let addr = PCH_PIC_MASK + offset;
        let cur = self.read_w(mem, addr);
        self.write_w(mem, addr, cur | bit);
    }
}

} // verus!
