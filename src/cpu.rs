//! The CPU's own interrupt control fields that the legacy controller's driver
//! reads and changes: the local interrupt enable bits (ECFG.LIE) and the
//! interrupt status bits (ESTAT.IS).
use vstd::prelude::*;

verus! {

/// The local enable bit of hardware interrupt 0 in ECFG.LIE.
pub const LIE_HWI0: usize = 0x4;

/// The hardware interrupt status bits (HWI0 to HWI7) in ESTAT.IS.
pub const IS_HWI_MASK: usize = 0x3fc;

/// A snapshot of the CPU's interrupt enable and status fields.
#[derive(Clone, Copy)]
pub struct CpuIrqState {
    /// ECFG.LIE: the local interrupt enable bits.
    pub lie: usize,
    /// ESTAT.IS: the interrupt status bits.
    pub is: usize,
}

impl CpuIrqState {
    /// A snapshot holding `lie` and `is`.
    pub fn new(lie: usize, is: usize) -> (r: CpuIrqState)
        ensures
            r.lie == lie,
            r.is == is,
    {
        CpuIrqState { lie, is }
    }

    /// Replaces the status bits selected by `mask` with those of `value`,
    /// as the CSR exchange instruction does, and returns the old status.
    pub fn exchange_status_bits(&mut self, mask: usize, value: usize) -> (r: usize)
        ensures
            r == old(self).is,
            final(self).is == (old(self).is & !mask) | (value & mask),
            final(self).lie == old(self).lie,
    {
        let prev = self.is;
        self.is = (prev & !mask) | (value & mask);
        prev
    }
}

} // verus!
