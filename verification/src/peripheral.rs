//! Memory-mapped peripheral register models.
//!
//! Each register type holds its base address and the register word as
//! the kernel last computed it; the methods perform the documented bit
//! manipulation on that word.  The port mirrors these words to the
//! actual memory-mapped locations with its volatile accessors — the one
//! part of register handling this model leaves outside.

use vstd::prelude::*;

pub mod rcc;
pub mod systick;
pub mod usart;

verus! {

/// A peripheral block: a set of registers at a base address.
pub trait Peripheral: Sized {
    /// The base address of the block.
    spec fn spec_mem_addr(&self) -> u32;

    /// The base address of the block.
    fn mem_addr(&self) -> (r: u32)
        ensures
            r == self.spec_mem_addr(),
    ;
}

/// A single register within a peripheral block.
pub trait Register: Sized {
    /// The base address of the block this register belongs to.
    spec fn spec_base_addr(&self) -> u32;

    /// The register's offset within its block.
    spec fn spec_mem_offset(&self) -> u32;

    /// Creates the register handle for the block at `base_addr`, with
    /// the register word at its reset value.
    fn new(base_addr: u32) -> (r: Self)
        ensures
            r.spec_base_addr() == base_addr,
    ;

    /// The base address of the block this register belongs to.
    fn base_addr(&self) -> (r: u32)
        ensures
            r == self.spec_base_addr(),
    ;

    /// The register's offset within its block.
    fn mem_offset(&self) -> (r: u32)
        ensures
            r == self.spec_mem_offset(),
    ;

    /// The register's memory-mapped address.
    fn addr(&self) -> (r: u32)
        requires
            self.spec_base_addr() + self.spec_mem_offset() <= u32::MAX,
        ensures
            r == self.spec_base_addr() + self.spec_mem_offset(),
    {
        self.base_addr() + self.mem_offset()
    }
}

/// A peripheral block addressed with machine words, as the system
/// control space is.
pub trait Control: Sized {
    /// The base address of the block.
    spec fn spec_mem_addr(&self) -> usize;

    /// The base address of the block.
    fn mem_addr(&self) -> (r: usize)
        ensures
            r == self.spec_mem_addr(),
    ;
}

} // verus!
