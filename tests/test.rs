use irq_loongarch::cpu::CpuIrqState;
use irq_loongarch::liointc::Liointc;
use irq_loongarch::mmio;
use irq_loongarch::mmio::Mmio;
use irq_loongarch::pch_pic::PchPic;

const PCH_PIC_MASK: usize = 0x20;
const PCH_PIC_EDGE: usize = 0x60;
const PCH_PIC_POL: usize = 0x3e0;
const PCH_INT_HTVEC: usize = 0x200;

fn new_mmio_region() -> (Mmio, usize) {
    (Mmio::new(0x1000), 0)
}

#[test]
fn mmio_read_write_u32_roundtrip() {
    let mut x = Mmio::new(4);
    let addr: usize = 0;

    mmio::write32(&mut x, addr, 0x1234_5678);
    let got = mmio::read32(&x, addr);

    assert_eq!(got, 0x1234_5678);
}

#[test]
fn mmio_write32_is_little_endian() {
    let mut x = Mmio::new(8);
    mmio::write32(&mut x, 2, 0x1234_5678);
    assert_eq!(x.read8(2), 0x78);
    assert_eq!(x.read8(3), 0x56);
    assert_eq!(x.read8(4), 0x34);
    assert_eq!(x.read8(5), 0x12);
    assert_eq!(x.read8(1), 0);
    assert_eq!(x.read8(6), 0);
}

#[test]
fn mmio_read_write_u8_roundtrip() {
    let mut x = Mmio::new(4);
    mmio::write8(&mut x, 1, 0xab);
    assert_eq!(x.read8(1), 0xab);
    assert_eq!(mmio::read32(&x, 0), 0x0000_ab00);
    assert_eq!(x.len(), 4);
}

#[test]
fn pch_pic_init_sets_edge_pol_to_zero() {
    let (mut mem, base) = new_mmio_region();

    mmio::write32(&mut mem, base + PCH_PIC_EDGE, 0xffff_ffff);
    mmio::write32(&mut mem, base + PCH_PIC_POL, 0xffff_ffff);

    let pic = PchPic::new(base);
    pic.init(&mut mem);

    let edge = mmio::read32(&mem, base + PCH_PIC_EDGE);
    let pol = mmio::read32(&mem, base + PCH_PIC_POL);

    assert_eq!(edge, 0);
    assert_eq!(pol, 0);
}

#[test]
fn pch_pic_init_clears_second_bank_and_keeps_mask() {
    let (mut mem, base) = new_mmio_region();
    mmio::write32(&mut mem, base + PCH_PIC_EDGE + 4, 0xffff_ffff);
    mmio::write32(&mut mem, base + PCH_PIC_POL + 4, 0xffff_ffff);
    mmio::write32(&mut mem, base + PCH_PIC_MASK, 0xdead_beef);
    PchPic::new(base).init(&mut mem);
    assert_eq!(mmio::read32(&mem, base + PCH_PIC_EDGE + 4), 0);
    assert_eq!(mmio::read32(&mem, base + PCH_PIC_POL + 4), 0);
    assert_eq!(mmio::read32(&mem, base + PCH_PIC_MASK), 0xdead_beef);
}

#[test]
fn pch_pic_enable_irq_unmasks_and_sets_htvec() {
    let (mut mem, base) = new_mmio_region();
    let pic = PchPic::new(base);

    let irq: usize = 5;
    let bit: u32 = 1 << (irq % 32);

    mmio::write32(&mut mem, base + PCH_PIC_MASK, 0xffff_ffff);

    pic.enable_irq(&mut mem, irq);

    let mask_after = mmio::read32(&mem, base + PCH_PIC_MASK);
    assert_eq!(mask_after, 0xffff_ffff & !bit);

    let hvec = mem.read8(base + PCH_INT_HTVEC + irq);
    assert_eq!(hvec, irq as u8);
}

#[test]
fn pch_pic_enable_irq_upper_bank() {
    let (mut mem, base) = new_mmio_region();
    let pic = PchPic::new(0x10);
    mmio::write32(&mut mem, base + 0x10 + PCH_PIC_MASK, 0xffff_ffff);
    mmio::write32(&mut mem, base + 0x10 + PCH_PIC_MASK + 4, 0xffff_ffff);
    pic.enable_irq(&mut mem, 40);
    assert_eq!(mmio::read32(&mem, 0x10 + PCH_PIC_MASK), 0xffff_ffff);
    assert_eq!(mmio::read32(&mem, 0x10 + PCH_PIC_MASK + 4), 0xffff_ffff & !(1u32 << 8));
    assert_eq!(mem.read8(0x10 + PCH_INT_HTVEC + 40), 40);
}

#[test]
fn pch_pic_disable_irq_masks_bit() {
    let (mut mem, base) = new_mmio_region();
    let pic = PchPic::new(base);

    let irq: usize = 5;
    let bit: u32 = 1 << (irq % 32);

    mmio::write32(&mut mem, base + PCH_PIC_MASK, 0);
    pic.disable_irq(&mut mem, irq);

    let mask_after = mmio::read32(&mem, base + PCH_PIC_MASK);
    assert_eq!(mask_after, bit);
}

#[test]
fn eiointc_api_smoke_compiles() {
    // The extended controller sees platform line `n` on its vector `n`.
    let _new: fn(usize) -> PchPic = PchPic::new;
    let _init: fn(&PchPic, &mut Mmio) = PchPic::init;
    let _en: fn(&PchPic, &mut Mmio, usize) = PchPic::enable_irq;
    let _dis: fn(&PchPic, &mut Mmio, usize) = PchPic::disable_irq;
    let (mut mem, base) = new_mmio_region();
    let pic = PchPic::new(base);
    for irq in 0..64usize {
        pic.enable_irq(&mut mem, irq);
        assert_eq!(mem.read8(base + PCH_INT_HTVEC + irq), irq as u8);
    }
    assert_eq!(mmio::read32(&mem, base + PCH_PIC_MASK), 0);
    assert_eq!(mmio::read32(&mem, base + PCH_PIC_MASK + 4), 0);
}

#[test]
fn liointc_api_smoke_compiles() {
    let _ctor: fn(usize, usize) -> Liointc = Liointc::new;
    let _init: fn(&Liointc, &mut Mmio, &mut CpuIrqState) = Liointc::init;
    let _en: fn(&Liointc, &mut Mmio, usize) = Liointc::enable_irq;
    let _dis: fn(&Liointc, &mut Mmio, usize) = Liointc::disable_irq;
    let _claim: fn(&Liointc, &mut Mmio, &mut CpuIrqState) -> Option<usize> = Liointc::claim_irq;
    let _complete: fn(&Liointc, &mut Mmio, usize) = Liointc::complete_irq;
}

const LIO_BASE: usize = 0x40;
const ISR_BASE: usize = 0x100;

fn new_liointc() -> (Liointc, Mmio) {
    (Liointc::new(LIO_BASE, ISR_BASE), Mmio::new(0x200))
}

#[test]
fn liointc_route_value() {
    assert_eq!(Liointc::lioint_corex_inty(0, 0), 0x11);
    assert_eq!(Liointc::lioint_corex_inty(2, 1), 0x24);
}

#[test]
fn liointc_init_resets_bank_registers() {
    let (lio, mut mem) = new_liointc();
    for off in 0..0x80usize {
        mmio::write8(&mut mem, LIO_BASE + off, 0x5a);
    }
    let mut cpu = CpuIrqState::new(0x1000, 0x7);
    lio.init(&mut mem, &mut cpu);
    assert_eq!(cpu.lie, 0x1004);
    assert_eq!(cpu.is, 0x7);
    for bank in 0..2usize {
        let r = LIO_BASE + 0x40 * bank;
        assert_eq!(mmio::read32(&mem, r + 0x2c), 0xffff_ffff);
        assert_eq!(mmio::read32(&mem, r + 0x30), 0);
        assert_eq!(mmio::read32(&mem, r + 0x34), 0);
        assert_eq!(mmio::read32(&mem, r + 0x38), 0);
        assert_eq!(mmio::read32(&mem, r + 0x3c), 0);
        for line in 0..32usize {
            assert_eq!(mem.read8(r + line), 0x11);
        }
        // the enable-set register is not written
        assert_eq!(mmio::read32(&mem, r + 0x28), 0x5a5a_5a5a);
    }
    assert_eq!(mem.read8(LIO_BASE - 1), 0);
    assert_eq!(mem.read8(LIO_BASE + 0x80), 0);
}

#[test]
fn liointc_enable_disable_target_own_bank() {
    let (lio, mut mem) = new_liointc();
    lio.enable_irq(&mut mem, 5);
    lio.enable_irq(&mut mem, 37);
    lio.disable_irq(&mut mem, 5);
    // enable-set registers of both banks
    assert_eq!(mmio::read32(&mem, LIO_BASE + 0x28), 1 << 5);
    assert_eq!(mmio::read32(&mem, LIO_BASE + 0x40 + 0x28), 1 << 5);
    // only bank 0's enable-clear register was written: line 37 stays enabled
    assert_eq!(mmio::read32(&mem, LIO_BASE + 0x2c), 1 << 5);
    assert_eq!(mmio::read32(&mem, LIO_BASE + 0x40 + 0x2c), 0);
}

#[test]
fn liointc_claim_nothing_pending() {
    let (lio, mut mem) = new_liointc();
    let mut cpu = CpuIrqState::new(0, 0x4);
    assert_eq!(lio.claim_irq(&mut mem, &mut cpu), None);
    assert_eq!(cpu.is, 0x4);
    assert_eq!(mmio::read32(&mem, LIO_BASE + 0x2c), 0);
}

#[test]
fn liointc_claim_and_complete_line_five() {
    let (lio, mut mem) = new_liointc();
    lio.enable_irq(&mut mem, 5);
    mmio::write32(&mut mem, ISR_BASE, 1 << 5);
    let mut cpu = CpuIrqState::new(0, 0x4);
    assert_eq!(lio.claim_irq(&mut mem, &mut cpu), Some(5));
    // masked while handled
    assert_eq!(mmio::read32(&mem, LIO_BASE + 0x2c), 1 << 5);
    // last pending line: the hardware status bits are acknowledged
    assert_eq!(cpu.is, 0);
    mmio::write32(&mut mem, LIO_BASE + 0x28, 0);
    lio.complete_irq(&mut mem, 5);
    assert_eq!(mmio::read32(&mem, LIO_BASE + 0x28), 1 << 5);
}

#[test]
fn liointc_claim_lowest_first() {
    let (lio, mut mem) = new_liointc();
    mmio::write32(&mut mem, ISR_BASE, (1 << 3) | (1 << 9));
    let mut cpu = CpuIrqState::new(0, 0x1004);
    assert_eq!(lio.claim_irq(&mut mem, &mut cpu), Some(3));
    // line 9 still pending: the CPU status is left alone
    assert_eq!(cpu.is, 0x1004);
    mmio::write32(&mut mem, ISR_BASE, 1 << 9);
    assert_eq!(lio.claim_irq(&mut mem, &mut cpu), Some(9));
    assert_eq!(cpu.is, 0x1000);
}

#[test]
fn liointc_claim_upper_bank_line() {
    let (lio, mut mem) = new_liointc();
    mmio::write32(&mut mem, ISR_BASE + 8, 1 << 4);
    let mut cpu = CpuIrqState::new(0, 0);
    assert_eq!(lio.claim_irq(&mut mem, &mut cpu), Some(36));
    assert_eq!(mmio::read32(&mem, LIO_BASE + 0x40 + 0x2c), 1 << 4);
    assert_eq!(mmio::read32(&mem, LIO_BASE + 0x2c), 0);
    assert_eq!(cpu.is, 0);
}

#[test]
fn liointc_complete_out_of_range_ignored() {
    let (lio, mut mem) = new_liointc();
    lio.complete_irq(&mut mem, 64);
    assert_eq!(mmio::read32(&mem, LIO_BASE + 0x28), 0);
    assert_eq!(mmio::read32(&mem, LIO_BASE + 0x40 + 0x28), 0);
}

#[test]
fn cpu_exchange_status_bits() {
    let mut cpu = CpuIrqState::new(1, 0x0fff);
    let prev = cpu.exchange_status_bits(0x3fc, 0x004);
    assert_eq!(prev, 0x0fff);
    assert_eq!(cpu.is, 0x0c07);
    assert_eq!(cpu.lie, 1);
}
