//! Software unsigned division for a target without divide
//! instructions: shift-and-subtract restoring division.
//!
//! The divisor is scaled up by doubling until it covers the dividend,
//! then walked back down, subtracting wherever it fits and collecting
//! the quotient one bit at a time.

use vstd::prelude::*;

use vstd::arithmetic::power2::pow2;

verus! {

/// The quotient of `num` by `den`.  Division by zero is excluded.
pub fn __aeabi_uidiv(num: u32, den: u32) -> (r: u32)
    requires
        den > 0,
    ensures
        r == num as int / den as int,
{
    __aeabi_uidivbase(num, den, false)
}

/// The remainder of `num` by `den`.  Division by zero is excluded.
pub fn __aeabi_uidivmod(num: u32, den: u32) -> (r: u32)
    requires
        den > 0,
    ensures
        r == num as int % den as int,
{
    __aeabi_uidivbase(num, den, true)
}

/// Restoring division: returns the remainder when `modwanted` and the
/// quotient otherwise.
pub fn __aeabi_uidivbase(num: u32, den: u32, modwanted: bool) -> (r: u32)
    requires
        den > 0,
    ensures
        modwanted ==> r == num as int % den as int,
        !modwanted ==> r == num as int / den as int,
{
    let mut n = num;
    let mut d = den;
    let mut bit: u32 = 1;
    let mut res: u32 = 0;
    let ghost mut k: nat = 0;
    proof {
        vstd::arithmetic::power2::lemma2_to64();
    }

    while d < n && bit != 0 && (d & 0x8000_0000u32) == 0
        invariant
            den > 0,
            n == num,
            1 <= bit,
            k < 32,
            bit as nat == pow2(k),
            d as int == den as int * bit as int,
        decreases 32 - k,
    {
        let ghost dd = d;
        let ghost bb = bit;
        proof {
            vstd::arithmetic::power2::lemma2_to64();
            assert(dd & 0x8000_0000u32 == 0 ==> dd < 0x8000_0000u32) by (bit_vector);
            assert(den as int * bit as int >= 1 * bit as int) by (nonlinear_arith)
                requires
                    den as int >= 1,
                    bit as int >= 0,
            ;
            vstd::bits::lemma_u32_shl_is_mul(dd, 1);
            vstd::bits::lemma_u32_shl_is_mul(bb, 1);
            vstd::arithmetic::power2::lemma_pow2_adds(k, 1);
            assert((den as int * bit as int) * 2 == den as int * (bit as int * 2))
                by (nonlinear_arith);
            k = k + 1;
            if k > 32 {
                vstd::arithmetic::power2::lemma_pow2_strictly_increases(32, k);
            }
        }
        d = d << 1;
        bit = bit << 1;
        proof {
            assert(d as int == 2 * (dd as int));
            assert(bit as int == 2 * (bb as int));
            assert(dd as int >= 1);
        }
    }
    // the divisor now covers the dividend: either it grew past it, or
    // its top bit is set and no double of it fits the word
    proof {
        let dd = d;
        assert(dd & 0x8000_0000u32 != 0 ==> dd >= 0x8000_0000u32) by (bit_vector);
        assert(d as int >= bit as int) by (nonlinear_arith)
            requires
                d as int == den as int * bit as int,
                den as int >= 1,
                bit as int >= 0,
        ;
        assert((n as int) < 2 * (d as int));
    }

    while bit != 0
        invariant
            den > 0,
            bit != 0 ==> bit as nat == pow2(k),
            bit != 0 ==> d as int == den as int * bit as int,
            bit != 0 ==> (n as int) < 2 * (d as int),
            bit == 0 ==> n < den,
            num as int == res as int * den as int + n as int,
        decreases bit,
    {
        let ghost d0 = d;
        let ghost bit0 = bit;
        if n >= d {
            proof {
                assert(bit as int * den as int == d as int) by (nonlinear_arith)
                    requires
                        d as int == den as int * bit as int,
                ;
                assert((res as int + bit as int) * den as int == res as int * den as int + bit
                    as int * den as int) by (nonlinear_arith);
                assert((res as int + bit as int) * den as int <= num as int);
                assert(res as int + bit as int <= (res as int + bit as int) * den as int)
                    by (nonlinear_arith)
                    requires
                        den as int >= 1,
                        res as int + bit as int >= 0,
                ;
            }
            n = n - d;
            res = res + bit;
        }
        proof {
            assert(n < d);
            vstd::bits::lemma_u32_shr_is_div(bit0, 1);
            vstd::bits::lemma_u32_shr_is_div(d0, 1);
            vstd::arithmetic::power2::lemma2_to64();
            if bit != 1 {
                vstd::arithmetic::power2::lemma_pow2_unfold(k);
                assert(bit as int == 2 * (bit as int / 2));
                assert(den as int * bit as int == 2 * (den as int * (bit as int / 2)))
                    by (nonlinear_arith)
                    requires
                        bit as int == 2 * (bit as int / 2),
                ;
                k = (k - 1) as nat;
            }
        }
        bit = bit >> 1;
        d = d >> 1;
        proof {
            if bit != 0 {
                assert(bit as int == bit0 as int / 2);
                assert(d as int == d0 as int / 2);
                assert(d0 as int == 2 * (d as int));
                assert((n as int) < 2 * (d as int));
            } else {
                // the last quotient bit has been placed
                assert(bit0 == 1);
                assert(d0 as int == den as int * 1) by (nonlinear_arith)
                    requires
                        d0 as int == den as int * bit0 as int,
                        bit0 == 1,
                ;
                assert(n < den);
            }
        }
    }
    proof {
        vstd::arithmetic::div_mod::lemma_fundamental_div_mod_converse_mod(
            num as int,
            den as int,
            res as int,
            n as int,
        );
        vstd::arithmetic::div_mod::lemma_fundamental_div_mod_converse_div(
            num as int,
            den as int,
            res as int,
            n as int,
        );
    }
    if modwanted {
        n
    } else {
        res
    }
}

} // verus!
