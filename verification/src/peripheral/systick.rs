//! The system timer: a down-counter that raises the tick interrupt.

use vstd::prelude::*;

use crate::peripheral::{Peripheral, Register};

verus! {

/// The block's base address.
pub const SYSTICK_ADDR: u32 = 0xE000_E010;

/// The clock the counter runs from.
#[derive(Clone, Copy, PartialEq, Eq, Structural, Debug)]
pub enum ClockSource {
    /// The external reference clock.
    Reference,
    /// The processor clock.
    Processor,
}

/// The timer handle: control, reload and current-value registers.
pub struct SysTick {
    /// The block's base address.
    pub mem_addr: u32,
    /// The control and status register.
    pub csr: CSR,
    /// The reload value register.
    pub rvr: RVR,
    /// The current value register.
    pub cvr: CVR,
}

/// The timer handle, at its documented address and reset state.
pub fn systick() -> (r: SysTick)
    ensures
        r.spec_mem_addr() == SYSTICK_ADDR,
{
    SysTick::systick()
}

impl Peripheral for SysTick {
    closed spec fn spec_mem_addr(&self) -> u32 {
        self.mem_addr
    }

    fn mem_addr(&self) -> (r: u32) {
        self.mem_addr
    }
}

impl SysTick {
    /// The control word.
    pub closed spec fn spec_csr(&self) -> u32 {
        self.csr.spec_value()
    }

    /// The reload word.
    pub closed spec fn spec_rvr(&self) -> u32 {
        self.rvr.spec_value()
    }

    /// The current-count word.
    pub closed spec fn spec_cvr(&self) -> u32 {
        self.cvr.spec_value()
    }

    /// The timer handle, at its documented address and reset state.
    pub fn systick() -> (r: Self)
        ensures
            r.spec_mem_addr() == SYSTICK_ADDR,
    {
        SysTick {
            mem_addr: SYSTICK_ADDR,
            csr: CSR { base_addr: SYSTICK_ADDR, value: 0 },
            rvr: RVR { base_addr: SYSTICK_ADDR, value: 0 },
            cvr: CVR { base_addr: SYSTICK_ADDR, value: 0 },
        }
    }

    /// Starts the counter.
    pub fn enable_counter(&mut self)
        ensures
            final(self).spec_csr() == (old(self).spec_csr() | 1u32),
    {
        self.csr.set_enable(true);
    }

    /// Stops the counter.
    pub fn disable_counter(&mut self)
        ensures
            final(self).spec_csr() == (old(self).spec_csr() & !1u32),
    {
        self.csr.set_enable(false);
    }

    /// Raises the tick interrupt when the counter reaches zero.
    pub fn enable_interrupts(&mut self)
        ensures
            final(self).spec_csr() == (old(self).spec_csr() | 2u32),
    {
        self.csr.set_interrupt(true);
    }

    /// Stops raising the tick interrupt.
    pub fn disable_interrupts(&mut self)
        ensures
            final(self).spec_csr() == (old(self).spec_csr() & !2u32),
    {
        self.csr.set_interrupt(false);
    }

    /// The value the counter restarts from.
    pub fn get_reload_value(&self) -> (r: u32)
        ensures
            r == self.spec_rvr() & 0xFF_FFFF,
    {
        self.rvr.get_reload_value()
    }

    /// Sets the value the counter restarts from; it must fit the
    /// register's twenty-four bits, anything larger is a fatal misuse
    /// and is excluded.
    pub fn set_reload_value(&mut self, value: u32)
        requires
            value & !0xFF_FFFF == 0,
        ensures
            final(self).spec_rvr() == value,
    {
        self.rvr.set_reload_value(value);
    }

    /// The counter's current value.
    pub fn get_current_value(&self) -> (r: u32)
        ensures
            r == self.spec_cvr() & 0xFF_FFFF,
    {
        self.cvr.get_current_value()
    }

    /// Clears the counter; any write clears this register.
    pub fn clear_current_value(&mut self)
        ensures
            final(self).spec_cvr() == 0,
    {
        self.cvr.clear_current_value();
    }
}

/// The control and status register.
pub struct CSR {
    base_addr: u32,
    value: u32,
}

impl Register for CSR {
    closed spec fn spec_base_addr(&self) -> u32 {
        self.base_addr
    }

    closed spec fn spec_mem_offset(&self) -> u32 {
        0x0
    }

    fn new(base_addr: u32) -> (r: Self) {
        CSR { base_addr, value: 0 }
    }

    fn base_addr(&self) -> (r: u32) {
        self.base_addr
    }

    fn mem_offset(&self) -> (r: u32) {
        0x0
    }
}

impl CSR {
    /// The register word.
    pub closed spec fn spec_value(&self) -> u32 {
        self.value
    }

    /// Turns the counter's enable bit on or off.
    pub fn set_enable(&mut self, enable: bool)
        ensures
            enable ==> final(self).spec_value() == (old(self).spec_value() | 1u32),
            !enable ==> final(self).spec_value() == (old(self).spec_value() & !1u32),
            final(self).spec_base_addr() == old(self).spec_base_addr(),
    {
        if enable {
            self.value = self.value | 1;
        } else {
            self.value = self.value & !1u32;
        }
    }

    /// Turns the tick-interrupt bit on or off.
    pub fn set_interrupt(&mut self, enable: bool)
        ensures
            enable ==> final(self).spec_value() == (old(self).spec_value() | 2u32),
            !enable ==> final(self).spec_value() == (old(self).spec_value() & !2u32),
            final(self).spec_base_addr() == old(self).spec_base_addr(),
    {
        if enable {
            self.value = self.value | 2;
        } else {
            self.value = self.value & !2u32;
        }
    }

    /// Selects the clock the counter runs from.
    pub fn set_source(&mut self, source: ClockSource)
        ensures
            source == ClockSource::Processor ==> final(self).spec_value() == (old(
                self,
            ).spec_value() | 4u32),
            source == ClockSource::Reference ==> final(self).spec_value() == (old(
                self,
            ).spec_value() & !4u32),
            final(self).spec_base_addr() == old(self).spec_base_addr(),
    {
        match source {
            ClockSource::Reference => {
                self.value = self.value & !4u32;
            },
            ClockSource::Processor => {
                self.value = self.value | 4;
            },
        }
    }

    /// True iff the counter reached zero since the flag was last read;
    /// the hardware clears the flag on read.
    pub fn did_underflow(&self) -> (r: bool)
        ensures
            r == (self.spec_value() & 0x1_0000 != 0),
    {
        (self.value & 0x1_0000) != 0
    }
}

/// The reload value register: the start value loaded into the counter.
pub struct RVR {
    base_addr: u32,
    value: u32,
}

impl Register for RVR {
    closed spec fn spec_base_addr(&self) -> u32 {
        self.base_addr
    }

    closed spec fn spec_mem_offset(&self) -> u32 {
        0x4
    }

    fn new(base_addr: u32) -> (r: Self) {
        RVR { base_addr, value: 0 }
    }

    fn base_addr(&self) -> (r: u32) {
        self.base_addr
    }

    fn mem_offset(&self) -> (r: u32) {
        0x4
    }
}

impl RVR {
    /// The register word.
    pub closed spec fn spec_value(&self) -> u32 {
        self.value
    }

    /// The reload value, masked to the register's twenty-four bits.
    pub fn get_reload_value(&self) -> (r: u32)
        ensures
            r == self.spec_value() & 0xFF_FFFF,
    {
        self.value & 0xFF_FFFF
    }

    /// Sets the reload value; it must fit twenty-four bits, anything
    /// larger is a fatal misuse and is excluded.
    pub fn set_reload_value(&mut self, value: u32)
        requires
            value & !0xFF_FFFF == 0,
        ensures
            final(self).spec_value() == value,
            final(self).spec_base_addr() == old(self).spec_base_addr(),
    {
        self.value = value;
    }
}

/// The current value register: the counter's present count.
pub struct CVR {
    base_addr: u32,
    value: u32,
}

impl Register for CVR {
    closed spec fn spec_base_addr(&self) -> u32 {
        self.base_addr
    }

    closed spec fn spec_mem_offset(&self) -> u32 {
        0x8
    }

    fn new(base_addr: u32) -> (r: Self) {
        CVR { base_addr, value: 0 }
    }

    fn base_addr(&self) -> (r: u32) {
        self.base_addr
    }

    fn mem_offset(&self) -> (r: u32) {
        0x8
    }
}

impl CVR {
    /// The register word.
    pub closed spec fn spec_value(&self) -> u32 {
        self.value
    }

    /// The current count, masked to the register's twenty-four bits.
    pub fn get_current_value(&self) -> (r: u32)
        ensures
            r == self.spec_value() & 0xFF_FFFF,
    {
        self.value & 0xFF_FFFF
    }

    /// Clears the count; any write clears this register.
    pub fn clear_current_value(&mut self)
        ensures
            final(self).spec_value() == 0,
            final(self).spec_base_addr() == old(self).spec_base_addr(),
    {
        self.value = 0;
    }
}

} // verus!
