//! The serial transmitter and receiver's control registers.

use vstd::prelude::*;

use crate::peripheral::Register;

verus! {

/// The number of data bits in a serial frame.
#[derive(Clone, Copy, PartialEq, Eq, Structural, Debug)]
pub enum WordLength {
    /// Seven data bits.
    Seven,
    /// Eight data bits.
    Eight,
    /// Nine data bits.
    Nine,
}

/// The three control registers of one serial port.
pub struct USARTCR {
    /// The first control register.
    pub cr1: CR1,
    /// The second control register.
    pub cr2: CR2,
    /// The third control register.
    pub cr3: CR3,
}

impl USARTCR {
    /// The first control word.
    pub closed spec fn spec_cr1(&self) -> u32 {
        self.cr1.spec_value()
    }

    /// Creates the register set for the port at `base_addr`, at reset
    /// state.
    pub fn new(base_addr: u32) -> (r: Self)
        ensures
            r.spec_cr1() == 0,
    {
        USARTCR {
            cr1: CR1 { base_addr, value: 0 },
            cr2: CR2 { base_addr, value: 0 },
            cr3: CR3 { base_addr, value: 0 },
        }
    }

    /// Selects the number of data bits in a frame.
    pub fn set_word_length(&mut self, length: WordLength)
        ensures
            final(self).spec_cr1() == ((old(self).spec_cr1() & !((1u32 << 12) | (1u32 << 28)))
                | CR1::spec_length_mask(length)),
    {
        self.cr1.set_word_length(length);
    }
}

/// The first control register, which holds the word-length field.
pub struct CR1 {
    base_addr: u32,
    value: u32,
}

impl Register for CR1 {
    closed spec fn spec_base_addr(&self) -> u32 {
        self.base_addr
    }

    closed spec fn spec_mem_offset(&self) -> u32 {
        0x0
    }

    fn new(base_addr: u32) -> (r: Self) {
        CR1 { base_addr, value: 0 }
    }

    fn base_addr(&self) -> (r: u32) {
        self.base_addr
    }

    fn mem_offset(&self) -> (r: u32) {
        0x0
    }
}

impl CR1 {
    /// The register word.
    pub closed spec fn spec_value(&self) -> u32 {
        self.value
    }

    /// The word-length field's two bits, as split across the register.
    pub open spec fn spec_length_mask(length: WordLength) -> u32 {
        match length {
            WordLength::Seven => 1u32 << 28,
            WordLength::Eight => 0,
            WordLength::Nine => 1u32 << 12,
        }
    }

    /// Selects the number of data bits in a frame.
    fn set_word_length(&mut self, length: WordLength)
        ensures
            final(self).spec_value() == ((old(self).spec_value() & !((1u32 << 12) | (1u32 << 28)))
                | CR1::spec_length_mask(length)),
            final(self).spec_base_addr() == old(self).spec_base_addr(),
    {
        let mask: u32 = match length {
            WordLength::Seven => 1u32 << 28,
            WordLength::Eight => 0,
            WordLength::Nine => 1u32 << 12,
        };
        self.value = (self.value & !((1u32 << 12) | (1u32 << 28))) | mask;
    }
}

/// The second control register.
pub struct CR2 {
    base_addr: u32,
    value: u32,
}

impl Register for CR2 {
    closed spec fn spec_base_addr(&self) -> u32 {
        self.base_addr
    }

    closed spec fn spec_mem_offset(&self) -> u32 {
        0x4
    }

    fn new(base_addr: u32) -> (r: Self) {
        CR2 { base_addr, value: 0 }
    }

    fn base_addr(&self) -> (r: u32) {
        self.base_addr
    }

    fn mem_offset(&self) -> (r: u32) {
        0x4
    }
}

impl CR2 {
    /// The register word.
    pub closed spec fn spec_value(&self) -> u32 {
        self.value
    }
}

/// The third control register.
pub struct CR3 {
    base_addr: u32,
    value: u32,
}

impl Register for CR3 {
    closed spec fn spec_base_addr(&self) -> u32 {
        self.base_addr
    }

    closed spec fn spec_mem_offset(&self) -> u32 {
        0x8
    }

    fn new(base_addr: u32) -> (r: Self) {
        CR3 { base_addr, value: 0 }
    }

    fn base_addr(&self) -> (r: u32) {
        self.base_addr
    }

    fn mem_offset(&self) -> (r: u32) {
        0x8
    }
}

impl CR3 {
    /// The register word.
    pub closed spec fn spec_value(&self) -> u32 {
        self.value
    }
}

} // verus!
