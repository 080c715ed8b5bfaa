//! The core-local legacy interrupt controller (LIOINTC): 64 lines in two
//! banks of 32, routed to CPU pins, with a claim/complete protocol that masks
//! a line while its handler runs.
use vstd::prelude::*;
use crate::cpu::{CpuIrqState, IS_HWI_MASK, LIE_HWI0};
use crate::mmio::{read32, write32, write8, store_word, word_at, Mmio};

verus! {

/// Offset of the controller registers within a bank.
pub const LIOINTC_INTC_CHIP_START: usize = 0x20;

/// Offset of a bank's disable register (writing 1 masks a line).
pub const LIOINTC_REG_INTC_DISABLE: usize = LIOINTC_INTC_CHIP_START + 0x0c;

/// Offset of a bank's polarity register.
pub const LIOINTC_REG_INTC_POL: usize = LIOINTC_INTC_CHIP_START + 0x10;

/// Offset of a bank's edge register (0: level triggered).
pub const LIOINTC_REG_INTC_EDGE: usize = LIOINTC_INTC_CHIP_START + 0x14;

/// Offset of a bank's bounce register.
pub const LIOINTC_REG_BOUNCE: usize = LIOINTC_INTC_CHIP_START + 0x18;

/// Offset of a bank's auto register.
pub const LIOINTC_REG_INTC_AUTO: usize = LIOINTC_INTC_CHIP_START + 0x1c;

/// Offset of a bank's enable-set register (writing 1 unmasks a line).
pub const LIOINTC_REG_INTEN_SET: usize = 0x28;

/// Offset of a bank's enable-clear register (writing 1 masks a line).
pub const LIOINTC_REG_INTEN_CLR: usize = 0x2c;

/// Distance between the two banks.
pub const LIOINTC_BANK_SIZE: usize = 0x40;

/// Position of the pin bits in a route byte.
pub const LIOINTC_SHIFT_INTX: usize = 4;

/// Lines of the controller.
pub const VEC_COUNT: usize = 64;

/// Distance between the status blocks of two cores.
pub const LIOINTC_CORE_STRIDE: usize = 0x100;

/// Bytes of the status block of core 0: low word at +0, high word at +8.
pub const LIOINTC_ISR_SPAN: usize = 12;

/// The route byte that sends a line to core 0, pin 0.
pub const LIOINTC_ROUTE_DEFAULT: u8 = 0x11;

/// Offset from the bank registers' base of the bank that holds `idx`.
pub open spec fn bank_offset(idx: int) -> int {
    if idx > 31 {
        0x40
    } else {
        0
    }
}

/// The bit of `idx` within its bank's registers.
pub open spec fn line_bit(idx: int) -> u32 {
    1u32 << ((idx % 32) as u32)
}

/// What byte `off` of the register block holds after `init`, where it held
/// `prev` before: route bytes send their line to core 0, pin 0; the disable
/// registers are all ones; polarity, edge, bounce and auto registers are 0.
pub open spec fn init_byte(off: int, prev: u8) -> u8 {
    if 0 <= off < 0x80 {
        let o = off % 0x40;
        if o < 0x20 {
            LIOINTC_ROUTE_DEFAULT
        } else if 0x2c <= o < 0x30 {
            0xffu8
        } else if 0x30 <= o {
            0u8
        } else {
            prev
        }
    } else {
        prev
    }
}

/// The register block `s` after `init`, for the bank registers at `base`.
pub open spec fn init_state(s: Seq<u8>, base: int) -> Seq<u8> {
    Seq::new(s.len(), |a: int| init_byte(a - base, s[a]))
}

/// The 64-bit pending set of core 0: high word at +8, low word at +0.
pub open spec fn pending_of(s: Seq<u8>, isr: int) -> u64 {
    ((word_at(s, isr + 8) as u64) << 32u64) | (word_at(s, isr) as u64)
}

/// Whether `k` is the lowest line set in the pending set `p`.
pub open spec fn lowest_pending(p: u64, k: int) -> bool {
    &&& 0 <= k < 64
    &&& (p >> (k as u64)) & 1u64 == 1u64
    &&& forall|j: u64| 0 <= j < k ==> #[trigger] ((p >> j) & 1u64) == 0u64
}

/// The controller's line enable set (bit `l` for line `l`) after `w` is
/// written to the enable-set register of bank `bank`: the lines whose bits
/// are set in `w` become enabled.
pub open spec fn apply_inten_set(en: u64, bank: int, w: u32) -> u64 {
    en | ((w as u64) << ((32 * bank) as u64))
}

/// The line enable set after `w` is written to the enable-clear register of
/// bank `bank`: the lines whose bits are set in `w` become masked.
pub open spec fn apply_inten_clr(en: u64, bank: int, w: u32) -> u64 {
    en & !((w as u64) << ((32 * bank) as u64))
}

/// Whether line `l` is enabled in the enable set `en`.
pub open spec fn line_enabled(en: u64, l: int) -> bool {
    (en >> (l as u64)) & 1u64 == 1u64
}

/// After `init`, both banks' disable registers read as all ones and their
/// polarity, edge, bounce and auto registers read as 0, whatever the block
/// held before.
pub proof fn lemma_init_resets_bank_registers(s: Seq<u8>, base: int, bank: int)
    requires
        0 <= base,
        base + 2 * LIOINTC_BANK_SIZE <= s.len(),
        0 <= bank < 2,
    ensures
        ({
            let t = init_state(s, base);
            let r = base + LIOINTC_BANK_SIZE * bank;
            &&& word_at(t, r + LIOINTC_REG_INTC_DISABLE) == 0xffff_ffffu32
            &&& word_at(t, r + LIOINTC_REG_INTC_POL) == 0
            &&& word_at(t, r + LIOINTC_REG_INTC_EDGE) == 0
            &&& word_at(t, r + LIOINTC_REG_BOUNCE) == 0
            &&& word_at(t, r + LIOINTC_REG_INTC_AUTO) == 0
        }),
{
    assert((0xffu8 as u32) | ((0xffu8 as u32) << 8u32) | ((0xffu8 as u32) << 16u32) | ((0xffu8
        as u32) << 24u32) == 0xffff_ffffu32) by (bit_vector);
    assert((0u8 as u32) | ((0u8 as u32) << 8u32) | ((0u8 as u32) << 16u32) | ((0u8 as u32)
        << 24u32) == 0u32) by (bit_vector);
}

/// Writing a line's bit to its bank's enable-set register enables that line
/// and leaves every other line as it was; writing it to the enable-clear
/// register masks that line and leaves every other line as it was.
pub proof fn lemma_enable_disable_per_line(en: u64, line: int, other: int)
    requires
        0 <= line < 64,
        0 <= other < 64,
        other != line,
    ensures
        bank_offset(line) == LIOINTC_BANK_SIZE * (line / 32),
        line_enabled(apply_inten_set(en, line / 32, line_bit(line)), line),
        line_enabled(apply_inten_set(en, line / 32, line_bit(line)), other) == line_enabled(
            en,
            other,
        ),
        !line_enabled(apply_inten_clr(en, line / 32, line_bit(line)), line),
        line_enabled(apply_inten_clr(en, line / 32, line_bit(line)), other) == line_enabled(
            en,
            other,
        ),
{
    let l = (line % 32) as u32;
    let o = other as u64;
    if line < 32 {
        assert(line as u64 == l as u64);
        assert(l < 32 ==> ((en | (((1u32 << l) as u64) << 0u64)) >> (l as u64)) & 1u64 == 1u64)
            by (bit_vector);
        assert(l < 32 && o < 64 && o != l as u64 ==> ((en | (((1u32 << l) as u64) << 0u64)) >> o)
            & 1u64 == (en >> o) & 1u64) by (bit_vector);
        assert(l < 32 ==> ((en & !(((1u32 << l) as u64) << 0u64)) >> (l as u64)) & 1u64 == 0u64)
            by (bit_vector);
        assert(l < 32 && o < 64 && o != l as u64 ==> ((en & !(((1u32 << l) as u64) << 0u64))
            >> o) & 1u64 == (en >> o) & 1u64) by (bit_vector);
    } else {
        assert(line as u64 == l as u64 + 32);
        assert(l < 32 ==> ((en | (((1u32 << l) as u64) << 32u64)) >> (l as u64 + 32)) & 1u64
            == 1u64) by (bit_vector);
        assert(l < 32 && o < 64 && o != l as u64 + 32 ==> ((en | (((1u32 << l) as u64)
            << 32u64)) >> o) & 1u64 == (en >> o) & 1u64) by (bit_vector);
        assert(l < 32 ==> ((en & !(((1u32 << l) as u64) << 32u64)) >> (l as u64 + 32)) & 1u64
            == 0u64) by (bit_vector);
        assert(l < 32 && o < 64 && o != l as u64 + 32 ==> ((en & !(((1u32 << l) as u64)
            << 32u64)) >> o) & 1u64 == (en >> o) & 1u64) by (bit_vector);
    }
}

/// A handle on one legacy controller: the offsets of its bank registers and
/// of its per-core status block.
#[derive(Clone, Copy)]
pub struct Liointc {
    mmio_base: usize,
    coreisr_base: usize,
}

impl Liointc {
    /// Where the bank registers start.
    pub closed spec fn base(&self) -> int {
        self.mmio_base as int
    }

    /// Where the per-core status block starts.
    pub closed spec fn isr_base(&self) -> int {
        self.coreisr_base as int
    }

    /// Whether both register blocks lie in `s`.
    pub open spec fn fits(&self, s: Seq<u8>) -> bool {
        &&& self.base() + 2 * LIOINTC_BANK_SIZE <= s.len()
        &&& self.isr_base() + LIOINTC_ISR_SPAN <= s.len()
    }

    /// A handle on the controller whose bank registers start at `mmio_base`
    /// and whose per-core status block starts at `coreisr_base`.
    pub fn new(mmio_base: usize, coreisr_base: usize) -> (r: Liointc)
        ensures
            r.base() == mmio_base,
            r.isr_base() == coreisr_base,
    {
        Liointc { mmio_base, coreisr_base }
    }

    fn bank_base(&self, idx: usize) -> (r: usize)
        requires
            self.base() + 2 * LIOINTC_BANK_SIZE <= usize::MAX,
        ensures
            r == self.base() + bank_offset(idx as int),
    {
        self.mmio_base + if idx > 31 {
            LIOINTC_BANK_SIZE
        } else {
            0
        }
    }

    fn irq_route_register(&self, idx: usize) -> (r: usize)
        requires
            self.base() + 2 * LIOINTC_BANK_SIZE <= usize::MAX,
        ensures
            r == self.base() + bank_offset(idx as int) + idx % 32,
    {
        self.bank_base(idx) + idx % 32
    }

    fn irq_inten_set_register(&self, idx: usize) -> (r: usize)
        requires
            self.base() + 2 * LIOINTC_BANK_SIZE <= usize::MAX,
        ensures
            r == self.base() + bank_offset(idx as int) + LIOINTC_REG_INTEN_SET,
    {
        self.bank_base(idx) + LIOINTC_REG_INTEN_SET
    }

    fn irq_inten_clr_register(&self, idx: usize) -> (r: usize)
        requires
            self.base() + 2 * LIOINTC_BANK_SIZE <= usize::MAX,
        ensures
            r == self.base() + bank_offset(idx as int) + LIOINTC_REG_INTEN_CLR,
    {
        self.bank_base(idx) + LIOINTC_REG_INTEN_CLR
    }

    fn irq_coreisr_register0(&self, core: usize) -> (r: usize)
        requires
            self.isr_base() + core * LIOINTC_CORE_STRIDE + 8 <= usize::MAX,
        ensures
            r == self.isr_base() + core * LIOINTC_CORE_STRIDE,
    {
        self.coreisr_base + core * LIOINTC_CORE_STRIDE
    }

    fn irq_coreisr_register1(&self, core: usize) -> (r: usize)
        requires
            self.isr_base() + core * LIOINTC_CORE_STRIDE + 8 <= usize::MAX,
        ensures
            r == self.isr_base() + 8 + core * LIOINTC_CORE_STRIDE,
    {
        self.coreisr_base + 8 + core * LIOINTC_CORE_STRIDE
    }

    /// The route value that sends a line to core `x`, pin `y`.
    pub fn lioint_corex_inty(x: usize, y: usize) -> (r: usize)
        requires
            x < 32,
            y + LIOINTC_SHIFT_INTX < 32,
        ensures
            r == (1usize << x) | (1usize << (y + LIOINTC_SHIFT_INTX)),
    {
        (1usize << x) | (1usize << (y + LIOINTC_SHIFT_INTX))
    }

    /// Writes `val` to each of the register at `off` of both banks.
    fn write_both_banks(&self, mem: &mut Mmio, off: usize, val: u32)
        requires
            self.fits(old(mem)@),
            off + 4 <= LIOINTC_BANK_SIZE,
        ensures
            final(mem)@ == store_word(
                store_word(old(mem)@, self.base() + off, val),
                self.base() + LIOINTC_BANK_SIZE + off,
                val,
            ),
    {
        let _n = mem.len();
        write32(mem, self.bank_base(0) + off, val);
        write32(mem, self.bank_base(32) + off, val);
    }

    /// Brings the controller to a known, inert state: enables hardware
    /// interrupt 0 at the CPU, routes every line to core 0, pin 0, masks every
    /// line, and sets every line to level triggered with bounce and auto off.
    pub fn init(&self, mem: &mut Mmio, cpu: &mut CpuIrqState)
        requires
            self.fits(old(mem)@),
        ensures
            final(mem)@ == init_state(old(mem)@, self.base()),
            final(cpu).lie == old(cpu).lie | LIE_HWI0,
            final(cpu).is == old(cpu).is,
    {
        cpu.lie = cpu.lie | LIE_HWI0;

        let ghost s0 = mem@;
        let ghost b = self.base();
        let _n = mem.len();
        let route = Self::lioint_corex_inty(0, 0);
        assert((1usize << 0usize) | (1usize << 4usize) == 0x11usize) by (bit_vector);
        let mut i: usize = 0;
        while i < VEC_COUNT
            invariant
                i <= VEC_COUNT,
                self.fits(s0),
                b == self.base(),
                route == 0x11,
                s0.len() <= usize::MAX,
                mem@.len() == s0.len(),
                forall|a: int|
                    0 <= a < s0.len() ==> #[trigger] mem@[a] == if 0 <= a - b < 0x80 && (a - b)
                        % 0x40 < 0x20 && (if a - b < 0x40 {
                        a - b
                    } else {
                        a - b - 0x40 + 32
                    }) < i {
                        LIOINTC_ROUTE_DEFAULT
                    } else {
                        s0[a]
                    },
            decreases VEC_COUNT - i,
        {
            write8(mem, self.irq_route_register(i), route as u8);
            i = i + 1;
        }

        let ghost s1 = mem@;
        // disable all lines
        self.write_both_banks(mem, LIOINTC_REG_INTC_DISABLE, 0xffff_ffff);
        // level triggered, active
        self.write_both_banks(mem, LIOINTC_REG_INTC_POL, 0);
        self.write_both_banks(mem, LIOINTC_REG_INTC_EDGE, 0);
        // bounce and auto off
        self.write_both_banks(mem, LIOINTC_REG_BOUNCE, 0);
        self.write_both_banks(mem, LIOINTC_REG_INTC_AUTO, 0);
        proof {
            assert(#[verifier::truncate] ((0u32 >> 0u32) as u8) == 0u8) by (bit_vector);
            assert(#[verifier::truncate] ((0u32 >> 8u32) as u8) == 0u8) by (bit_vector);
            assert(#[verifier::truncate] ((0u32 >> 16u32) as u8) == 0u8) by (bit_vector);
            assert(#[verifier::truncate] ((0u32 >> 24u32) as u8) == 0u8) by (bit_vector);
            assert(#[verifier::truncate] ((0xffff_ffffu32 >> 0u32) as u8) == 0xffu8)
                by (bit_vector);
            assert(#[verifier::truncate] ((0xffff_ffffu32 >> 8u32) as u8) == 0xffu8)
                by (bit_vector);
            assert(#[verifier::truncate] ((0xffff_ffffu32 >> 16u32) as u8) == 0xffu8)
                by (bit_vector);
            assert(#[verifier::truncate] ((0xffff_ffffu32 >> 24u32) as u8) == 0xffu8)
                by (bit_vector);
            assert(mem@ =~= init_state(s0, b));
        }
    }

    /// Unmasks `irq` by writing its bit to its bank's enable-set register.
    pub fn enable_irq(&self, mem: &mut Mmio, irq: usize)
        requires
            self.fits(old(mem)@),
            irq < VEC_COUNT,
        ensures
            final(mem)@ == store_word(
                old(mem)@,
                self.base() + bank_offset(irq as int) + LIOINTC_REG_INTEN_SET,
                line_bit(irq as int),
            ),
    {
        let _n = mem.len();
        let bit = 1u32 << ((irq % 32) as u32);
        write32(mem, self.irq_inten_set_register(irq), bit);
    }

    /// Masks `irq` by writing its bit to its bank's enable-clear register.
    pub fn disable_irq(&self, mem: &mut Mmio, irq: usize)
        requires
            self.fits(old(mem)@),
            irq < VEC_COUNT,
        ensures
            final(mem)@ == store_word(
                old(mem)@,
                self.base() + bank_offset(irq as int) + LIOINTC_REG_INTEN_CLR,
                line_bit(irq as int),
            ),
    {
        let _n = mem.len();
        let bit = 1u32 << ((irq % 32) as u32);
        write32(mem, self.irq_inten_clr_register(irq), bit);
    }

    /// Claims the lowest pending line of core 0 and masks it until
    /// `complete_irq`. When it was the last one pending and the CPU still
    /// shows an interrupt status, the hardware interrupt status bits are
    /// cleared. Returns `None`, and changes nothing, when no line is pending.
    pub fn claim_irq(&self, mem: &mut Mmio, cpu: &mut CpuIrqState) -> (r: Option<usize>)
        requires
            self.fits(old(mem)@),
        ensures
            ({
                let p = pending_of(old(mem)@, self.isr_base());
                &&& p == 0 ==> {
                    &&& r is None
                    &&& final(mem)@ == old(mem)@
                    &&& *final(cpu) == *old(cpu)
                }
                &&& p != 0 ==> {
                    &&& r is Some
                    &&& lowest_pending(p, r->0 as int)
                    &&& final(mem)@ == store_word(
                        old(mem)@,
                        self.base() + bank_offset(r->0 as int) + LIOINTC_REG_INTEN_CLR,
                        line_bit(r->0 as int),
                    )
                    &&& final(cpu).lie == old(cpu).lie
                    &&& final(cpu).is == if p & !(1u64 << (r->0 as u64)) == 0 && old(cpu).is != 0 {
                        old(cpu).is & !IS_HWI_MASK
                    } else {
                        old(cpu).is
                    }
                }
            }),
    {
        let _n = mem.len();
        let hi = read32(mem, self.irq_coreisr_register1(0)) as u64;
        let lo = read32(mem, self.irq_coreisr_register0(0)) as u64;
        let mut pending: u64 = (hi << 32u64) | lo;

        if pending == 0 {
            return None;
        }

        let irq = pending.trailing_zeros() as usize;
        proof {
            vstd::std_specs::bits::axiom_u64_trailing_zeros(pending);
        }

        // mask the claimed line until it completes
        self.disable_irq(mem, irq);

        pending = pending & !(1u64 << (irq as u64));
        if pending == 0 && cpu.is != 0 {
            let prev = cpu.exchange_status_bits(IS_HWI_MASK, 0);
            assert((prev & !IS_HWI_MASK) | (0usize & IS_HWI_MASK) == prev & !IS_HWI_MASK)
                by (bit_vector);
        }
        Some(irq)
    }

    /// Re-arms `irq` once its handler has finished; a line outside the
    /// controller's range is ignored.
    pub fn complete_irq(&self, mem: &mut Mmio, irq: usize)
        requires
            self.fits(old(mem)@),
        ensures
            irq < VEC_COUNT ==> final(mem)@ == store_word(
                old(mem)@,
                self.base() + bank_offset(irq as int) + LIOINTC_REG_INTEN_SET,
                line_bit(irq as int),
            ),
            irq >= VEC_COUNT ==> final(mem)@ == old(mem)@,
    {
        if irq < VEC_COUNT {
            self.enable_irq(mem, irq);
        }
    }
}

} // verus!
