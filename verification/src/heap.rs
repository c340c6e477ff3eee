//! The kernel heap: a bump allocator over a fixed memory region.
//!
//! The allocator hands out addresses from a region `[heap_start,
//! heap_start + heap_size)` and never frees; task stacks are carved out of
//! it at task creation.  Addresses are modelled as plain `usize` values;
//! the port layer is responsible for making the region it names actually
//! available.

use vstd::prelude::*;

verus! {

/// True iff `v` is a power of two (and hence a legal alignment).
pub open spec fn is_pow2(v: usize) -> bool {
    v != 0 && v & ((v - 1) as usize) == 0
}

/// `addr` rounded up to the next multiple of `align`.
pub open spec fn spec_round_up(addr: int, align: int) -> int {
    addr + ((align - (addr % align)) % align)
}

/// Largest `x` with alignment `align` such that `x <= addr`.
///
/// An `align` of zero leaves `addr` untouched; otherwise `align` must be
/// a power of two (any other alignment is a fatal misuse and is excluded).
pub fn align_down(addr: usize, align: usize) -> (r: usize)
    requires
        align == 0 || is_pow2(align),
    ensures
        align == 0 ==> r == addr,
        align != 0 ==> r == addr - (addr % align),
        r <= addr,
        align != 0 ==> r % align == 0 && addr - r < align,
{
    if is_power_of_two(align) {
        proof {
            vstd::arithmetic::div_mod::lemma_mod_division_less_than_divisor(
                addr as int,
                align as int,
            );
            vstd::arithmetic::div_mod::lemma_mod_decreases(addr as nat, align as nat);
            vstd::arithmetic::div_mod::lemma_sub_mod_noop(
                addr as int,
                addr as int % align as int,
                align as int,
            );
            vstd::arithmetic::div_mod::lemma_mod_twice(addr as int, align as int);
            vstd::arithmetic::div_mod::lemma_small_mod(0nat, align as nat);
        }
        addr - addr % align
    } else {
        addr
    }
}

/// Smallest `x` with alignment `align` such that `x >= addr`.
///
/// `align` must be a non-zero power of two, and the adjustment must not
/// run past the end of the address space.
pub fn align_up(addr: usize, align: usize) -> (r: usize)
    requires
        is_pow2(align),
        addr + align - 1 <= usize::MAX,
    ensures
        r == spec_round_up(addr as int, align as int),
        r >= addr,
        r % align == 0,
        r - addr < align,
{
    let base = addr + (align - 1);
    proof {
        lemma_round_up_from_floor(addr as int, align as int);
    }
    align_down(base, align)
}

/// Rounding `addr + align - 1` down to a multiple of `align` is the same
/// as rounding `addr` up.
proof fn lemma_round_up_from_floor(addr: int, align: int)
    requires
        align > 0,
        addr >= 0,
    ensures
        addr + align - 1 - ((addr + align - 1) % align) == spec_round_up(addr, align),
        spec_round_up(addr, align) % align == 0,
        addr <= spec_round_up(addr, align) < addr + align,
{
    let m = addr % align;
    let k = addr / align;
    vstd::arithmetic::div_mod::lemma_mod_division_less_than_divisor(addr, align);
    vstd::arithmetic::div_mod::lemma_fundamental_div_mod(addr, align);
    if m == 0 {
        vstd::arithmetic::div_mod::lemma_mod_self_0(align);
        assert(addr + align - 1 == align * k + (align - 1));
        vstd::arithmetic::div_mod::lemma_fundamental_div_mod_converse_mod(
            addr + align - 1,
            align,
            k,
            align - 1,
        );
    } else {
        vstd::arithmetic::div_mod::lemma_small_mod((align - m) as nat, align as nat);
        assert(align * (k + 1) == align * k + align) by {
            vstd::arithmetic::mul::lemma_mul_is_distributive_add(align, k, 1);
        };
        assert(addr + align - 1 == align * (k + 1) + (m - 1));
        vstd::arithmetic::div_mod::lemma_fundamental_div_mod_converse_mod(
            addr + align - 1,
            align,
            k + 1,
            m - 1,
        );
        vstd::arithmetic::div_mod::lemma_fundamental_div_mod_converse_mod(
            addr + align - m,
            align,
            k + 1,
            0,
        );
    }
}

/// True iff `v` is a power of two; mirrors [`is_pow2`] in executable code.
fn is_power_of_two(v: usize) -> (r: bool)
    ensures
        r == is_pow2(v),
{
    v != 0 && (v & (v - 1)) == 0
}

/// Allocates addresses from a fixed region, moving a watermark upward and
/// never freeing.
pub struct BumpAllocator {
    heap_start: usize,
    heap_size: usize,
    next: usize,
}

impl BumpAllocator {
    /// The allocator's watermark stays inside its region and the region
    /// stays inside the address space.
    pub closed spec fn wf(&self) -> bool {
        &&& self.heap_start + self.heap_size <= usize::MAX
        &&& self.heap_start <= self.next <= self.heap_start + self.heap_size
    }

    /// Start of the managed region.
    pub closed spec fn spec_heap_start(&self) -> usize {
        self.heap_start
    }

    /// Size of the managed region in bytes.
    pub closed spec fn spec_heap_size(&self) -> usize {
        self.heap_size
    }

    /// First address not yet handed out.
    pub closed spec fn spec_next(&self) -> usize {
        self.next
    }

    /// Creates an allocator over the empty region at address zero; it
    /// grants nothing until [`BumpAllocator::init`] names a real region.
    pub fn new() -> (r: Self)
        ensures
            r.wf(),
            r.spec_heap_start() == 0,
            r.spec_heap_size() == 0,
            r.spec_next() == 0,
    {
        BumpAllocator { heap_start: 0, heap_size: 0, next: 0 }
    }

    /// Points the allocator at the region `[heap_start, heap_start +
    /// heap_size)` and resets the watermark to its start.
    pub fn init(&mut self, heap_start: usize, heap_size: usize)
        requires
            heap_start + heap_size <= usize::MAX,
        ensures
            final(self).wf(),
            final(self).spec_heap_start() == heap_start,
            final(self).spec_heap_size() == heap_size,
            final(self).spec_next() == heap_start,
    {
        self.heap_start = heap_start;
        self.heap_size = heap_size;
        self.next = heap_start;
    }

    /// Hands out a block of `size` bytes aligned to `align`, or `None`
    /// when the region cannot hold it.
    ///
    /// On success the result is the old watermark rounded up to `align`,
    /// and the watermark moves past the block; a failed request leaves the
    /// allocator unchanged.
    pub fn allocate(&mut self, size: usize, align: usize) -> (r: Option<usize>)
        requires
            old(self).wf(),
            is_pow2(align),
        ensures
            final(self).wf(),
            final(self).spec_heap_start() == old(self).spec_heap_start(),
            final(self).spec_heap_size() == old(self).spec_heap_size(),
            ({
                let start = spec_round_up(old(self).spec_next() as int, align as int);
                let fits = start + size
                    <= old(self).spec_heap_start() + old(self).spec_heap_size();
                match r {
                    Some(a) => {
                        &&& fits
                        &&& a == start
                        &&& a % align == 0
                        &&& old(self).spec_next() <= a
                        &&& final(self).spec_next() == a + size
                    },
                    None => {
                        &&& !fits
                        &&& *final(self) == *old(self)
                    },
                }
            }),
    {
        proof {
            vstd::arithmetic::div_mod::lemma_mod_division_less_than_divisor(
                self.next as int,
                align as int,
            );
            lemma_round_up_from_floor(self.next as int, align as int);
        }
        let limit = self.heap_start + self.heap_size;
        let room = limit - self.next;
        let pad = (align - self.next % align) % align;
        if pad <= room && size <= room - pad {
            let alloc_start = self.next + pad;
            self.next = alloc_start + size;
            Some(alloc_start)
        } else {
            None
        }
    }
}

} // verus!
