//! The system control block, through which the kernel pends the
//! context-switch exception.

use vstd::prelude::*;

use crate::peripheral::Control;

verus! {

/// The block's base address.
pub const SCB_ADDR: usize = 0xE000_ED00;

/// The system control block handle.
pub struct SCB {
    /// The block's base address.
    pub mem_addr: usize,
    /// The interrupt control and state register.
    pub icsr: ICSR,
}

/// The system control block handle, at its documented address and
/// reset state.
pub fn scb() -> (r: SCB)
    ensures
        r.mem_addr == SCB_ADDR,
        r.icsr.spec_value() == 0,
{
    SCB::scb()
}

impl Control for SCB {
    closed spec fn spec_mem_addr(&self) -> usize {
        self.mem_addr
    }

    fn mem_addr(&self) -> (r: usize) {
        self.mem_addr
    }
}

impl SCB {
    /// The system control block handle, at its documented address and
    /// reset state.
    pub fn scb() -> (r: Self)
        ensures
            r.mem_addr == SCB_ADDR,
            r.icsr.spec_value() == 0,
    {
        SCB { mem_addr: SCB_ADDR, icsr: ICSR { base_addr: SCB_ADDR, value: 0 } }
    }

    /// Pends the context-switch exception.
    pub fn set_pend_sv(&mut self)
        ensures
            final(self).icsr.spec_value() == (old(self).icsr.spec_value() | 0x1000_0000usize),
            final(self).mem_addr == old(self).mem_addr,
    {
        self.icsr.set_pend_sv();
    }

    /// Clears a pended context-switch exception.
    pub fn clear_pend_sv(&mut self)
        ensures
            final(self).icsr.spec_value() == (old(self).icsr.spec_value() | 0x0800_0000usize),
            final(self).mem_addr == old(self).mem_addr,
    {
        self.icsr.clear_pend_sv();
    }
}

/// The interrupt control and state register: one write-one-to-pend bit
/// and one write-one-to-clear bit for the context-switch exception.
pub struct ICSR {
    /// The base address of the block this register belongs to.
    pub base_addr: usize,
    /// The register word as last written.
    pub value: usize,
}

impl ICSR {
    /// The register word as last written.
    pub open spec fn spec_value(&self) -> usize {
        self.value
    }

    /// Creates the register handle for the block at `base_addr`.
    pub fn new(base_addr: usize) -> (r: Self)
        ensures
            r.base_addr == base_addr,
            r.spec_value() == 0,
    {
        ICSR { base_addr, value: 0 }
    }

    /// Writes the pend bit; the hardware pends the context-switch
    /// exception when this word reaches it.
    pub fn set_pend_sv(&mut self)
        ensures
            final(self).spec_value() == (old(self).spec_value() | 0x1000_0000usize),
            final(self).base_addr == old(self).base_addr,
    {
        self.value = self.value | 0x1000_0000;
    }

    /// Writes the clear bit; the hardware clears a pended
    /// context-switch exception when this word reaches it.
    pub fn clear_pend_sv(&mut self)
        ensures
            final(self).spec_value() == (old(self).spec_value() | 0x0800_0000usize),
            final(self).base_addr == old(self).base_addr,
    {
        self.value = self.value | 0x0800_0000;
    }
}

} // verus!
