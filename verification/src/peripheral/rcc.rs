//! The reset and clock controller: enabling and disabling clocks,
//! selecting clock sources, and the derived system clock rate.

use vstd::prelude::*;

use crate::peripheral::{Peripheral, Register};

verus! {

/// The block's base address.
pub const RCC_ADDR: u32 = 0x4002_1000;

/// The internal high-speed oscillator's rate in hertz.
pub const HSI_VALUE: u32 = 8_000_000;

/// The external oscillator's rate in hertz.
pub const HSE_VALUE: u32 = 8_000_000;

/// The 48 MHz internal oscillator's rate in hertz.
pub const HSI48_VALUE: u32 = 48_000_000;

/// The clocks the controller manages.
#[derive(Clone, Copy, PartialEq, Eq, Structural, Debug)]
pub enum Clock {
    /// The internal high-speed oscillator.
    HSI,
    /// The 48 MHz internal oscillator.
    HSI48,
    /// The 14 MHz internal oscillator.
    HSI14,
    /// The external oscillator.
    HSE,
    /// The phase-locked loop.
    PLL,
}

/// The controller handle: the clock-control and configuration
/// registers, and the derived system clock rate.
pub struct RCC {
    /// The block's base address.
    pub mem_addr: u32,
    /// The clock-control register pair.
    pub cr: ClockControl,
    /// The configuration register.
    pub cfgr: CFGR,
    /// The second configuration register.
    pub cfgr2: CFGR2,
    /// The derived system clock rate, as last computed.
    pub clock_rate: u32,
}

/// The controller handle, at its documented address and reset state.
pub fn rcc() -> (r: RCC)
    ensures
        r.spec_mem_addr() == RCC_ADDR,
        r.spec_clock_rate() == 0,
{
    RCC::rcc()
}

impl Peripheral for RCC {
    closed spec fn spec_mem_addr(&self) -> u32 {
        self.mem_addr
    }

    fn mem_addr(&self) -> (r: u32) {
        self.mem_addr
    }
}

impl RCC {
    /// The derived system clock rate, as last computed.
    pub closed spec fn spec_clock_rate(&self) -> u32 {
        self.clock_rate
    }

    /// The configuration register word.
    pub closed spec fn spec_cfgr(&self) -> u32 {
        self.cfgr.spec_value()
    }

    /// The controller handle, at its documented address and reset
    /// state.
    pub fn rcc() -> (r: Self)
        ensures
            r.spec_mem_addr() == RCC_ADDR,
            r.spec_clock_rate() == 0,
    {
        RCC {
            mem_addr: RCC_ADDR,
            cr: ClockControl::new(RCC_ADDR),
            cfgr: CFGR { base_addr: RCC_ADDR, value: 0 },
            cfgr2: CFGR2 { base_addr: RCC_ADDR, value: 0 },
            clock_rate: 0,
        }
    }

    /// Enables the given clock.
    pub fn enable_clock(&mut self, clock: Clock)
        ensures
            final(self).spec_clock_rate() == old(self).spec_clock_rate(),
            final(self).spec_cfgr() == old(self).spec_cfgr(),
    {
        self.cr.enable_clock(clock);
    }

    /// Disables the given clock; returns false when the clock could not
    /// be disabled.
    pub fn disable_clock(&mut self, clock: Clock) -> (r: bool)
        ensures
            final(self).spec_clock_rate() == old(self).spec_clock_rate(),
            final(self).spec_cfgr() == old(self).spec_cfgr(),
    {
        self.cr.disable_clock(clock)
    }

    /// True iff the given clock is enabled.
    pub fn clock_is_on(&self, clock: Clock) -> bool {
        self.cr.clock_is_on(clock)
    }

    /// True iff the given clock is ready for use.
    pub fn clock_is_ready(&self, clock: Clock) -> bool {
        self.cr.clock_is_ready(clock)
    }

    /// The clock driving the system clock.
    pub fn get_system_clock_source(&self) -> (r: Clock)
        ensures
            r == self.cfgr.spec_system_clock_source(),
    {
        self.cfgr.get_system_clock_source()
    }

    /// Selects the clock driving the system clock and recomputes the
    /// derived clock rate.  Only the HSI, HSE, PLL and 48 MHz internal
    /// clocks can drive the system clock; anything else is a fatal
    /// misuse and is excluded.
    pub fn set_system_clock_source(&mut self, clock: Clock)
        requires
            clock == Clock::HSI || clock == Clock::HSE || clock == Clock::PLL || clock
                == Clock::HSI48,
        ensures
            final(self).cfgr.spec_system_clock_source() == clock,
            final(self).spec_clock_rate() == spec_clock_rate_from(
                final(self).cfgr,
                final(self).cfgr2,
            ),
    {
        self.cfgr.set_system_clock_source(clock);
        update_system_clock_rate(self);
    }

    /// The clock driving the phase-locked loop.
    pub fn get_pll_source(&self) -> (r: Clock)
        ensures
            r == self.cfgr.spec_pll_source(),
    {
        self.cfgr.get_pll_source()
    }

    /// Selects the clock driving the phase-locked loop.  Only the HSI,
    /// HSE and 48 MHz internal clocks can drive it; anything else is a
    /// fatal misuse and is excluded.
    pub fn set_pll_source(&mut self, clock: Clock)
        requires
            clock == Clock::HSI || clock == Clock::HSE || clock == Clock::HSI48,
        ensures
            final(self).cfgr.spec_pll_source() == clock,
            final(self).spec_clock_rate() == old(self).spec_clock_rate(),
    {
        self.cfgr.set_pll_source(clock);
    }

    /// The phase-locked loop's multiplier, between two and sixteen.
    pub fn get_pll_multiplier(&self) -> (r: u8)
        ensures
            r == self.cfgr.spec_pll_multiplier(),
            2 <= r <= 16,
    {
        self.cfgr.get_pll_multiplier()
    }

    /// Sets the phase-locked loop's multiplier; it must lie between two
    /// and sixteen, anything else is a fatal misuse and is excluded.
    pub fn set_pll_multiplier(&mut self, mul: u8)
        requires
            2 <= mul <= 16,
        ensures
            final(self).cfgr.spec_pll_multiplier() == mul,
            final(self).spec_clock_rate() == old(self).spec_clock_rate(),
    {
        self.cfgr.set_pll_multiplier(mul);
    }

    /// The phase-locked loop's input divider, between one and sixteen.
    pub fn get_pll_prediv_factor(&self) -> (r: u8)
        ensures
            r == self.cfgr2.spec_prediv_factor(),
            1 <= r <= 16,
    {
        self.cfgr2.get_prediv_factor()
    }

    /// Sets the phase-locked loop's input divider; it must lie between
    /// one and sixteen, anything else is a fatal misuse and is
    /// excluded.
    pub fn set_pll_prediv_factor(&mut self, factor: u8)
        requires
            1 <= factor <= 16,
        ensures
            final(self).cfgr2.spec_prediv_factor() == factor,
            final(self).spec_clock_rate() == old(self).spec_clock_rate(),
    {
        self.cfgr2.set_prediv_factor(factor);
    }

    /// The derived system clock rate in hertz, as last computed.
    pub fn get_system_clock_rate(&self) -> (r: u32)
        ensures
            r == self.spec_clock_rate(),
    {
        self.clock_rate
    }
}

/// The system clock rate the configuration words describe: the selected
/// source's oscillator rate, or for the phase-locked loop its input
/// rate divided and multiplied.
pub open spec fn spec_clock_rate_from(cfgr: CFGR, cfgr2: CFGR2) -> u32 {
    match cfgr.spec_system_clock_source() {
        Clock::HSI => HSI_VALUE,
        Clock::HSE => HSE_VALUE,
        Clock::HSI48 => HSI48_VALUE,
        Clock::PLL => {
            let mul = cfgr.spec_pll_multiplier() as u32;
            let prediv = cfgr2.spec_prediv_factor() as u32;
            match cfgr.spec_pll_source() {
                Clock::HSE => ((HSE_VALUE / prediv) * mul) as u32,
                Clock::HSI48 => ((HSI48_VALUE / prediv) * mul) as u32,
                _ => ((HSI_VALUE / 2) * mul) as u32,
            }
        },
        _ => 0,
    }
}

/// Recomputes the derived system clock rate from the configuration
/// words.
pub fn update_system_clock_rate(controller: &mut RCC)
    ensures
        final(controller).spec_clock_rate() == spec_clock_rate_from(
            final(controller).cfgr,
            final(controller).cfgr2,
        ),
        final(controller).cfgr == old(controller).cfgr,
        final(controller).cfgr2 == old(controller).cfgr2,
{
    let mul = controller.cfgr.get_pll_multiplier() as u32;
    let prediv = controller.cfgr2.get_prediv_factor() as u32;
    proof {
        vstd::arithmetic::div_mod::lemma_div_nonincreasing(HSE_VALUE as int, prediv as int);
        vstd::arithmetic::div_mod::lemma_div_nonincreasing(HSI48_VALUE as int, prediv as int);
        vstd::arithmetic::mul::lemma_mul_upper_bound(
            HSE_VALUE as int / prediv as int,
            HSE_VALUE as int,
            mul as int,
            16,
        );
        vstd::arithmetic::mul::lemma_mul_upper_bound(
            HSI48_VALUE as int / prediv as int,
            HSI48_VALUE as int,
            mul as int,
            16,
        );
        vstd::arithmetic::mul::lemma_mul_upper_bound(
            HSI_VALUE as int / 2,
            HSI_VALUE as int / 2,
            mul as int,
            16,
        );
    }
    let rate = match controller.cfgr.get_system_clock_source() {
        Clock::HSI => HSI_VALUE,
        Clock::HSE => HSE_VALUE,
        Clock::HSI48 => HSI48_VALUE,
        Clock::PLL => {
            match controller.cfgr.get_pll_source() {
                Clock::HSE => (HSE_VALUE / prediv) * mul,
                Clock::HSI48 => (HSI48_VALUE / prediv) * mul,
                _ => (HSI_VALUE / 2) * mul,
            }
        },
        _ => 0,
    };
    controller.clock_rate = rate;
}

/// The clock-control register pair: one register for the HSI, HSE and
/// PLL clocks and a second for the two newer internal oscillators.
pub struct ClockControl {
    /// The register for the HSI, HSE and PLL clocks.
    pub cr: CR,
    /// The register for the two newer internal oscillators.
    pub cr2: CR2,
}

impl ClockControl {
    /// Creates the pair for the block at `base_addr`, at reset state.
    pub fn new(base_addr: u32) -> (r: Self)
        ensures
            r.cr.spec_base_addr() == base_addr,
            r.cr2.spec_base_addr() == base_addr,
    {
        ClockControl {
            cr: CR { base_addr, value: 0 },
            cr2: CR2 { base_addr, value: 0 },
        }
    }

    /// Enables the given clock.
    pub fn enable_clock(&mut self, clock: Clock) {
        match clock {
            Clock::HSI | Clock::HSE | Clock::PLL => {
                self.cr.set_clock(true, clock);
            },
            Clock::HSI48 | Clock::HSI14 => {
                self.cr2.set_clock(true, clock);
            },
        }
    }

    /// Disables the given clock; returns false when the clock could not
    /// be disabled.
    pub fn disable_clock(&mut self, clock: Clock) -> (r: bool) {
        match clock {
            Clock::HSI | Clock::HSE | Clock::PLL => self.cr.set_clock(false, clock),
            Clock::HSI48 | Clock::HSI14 => self.cr2.set_clock(false, clock),
        }
    }

    /// True iff the given clock is enabled.
    pub fn clock_is_on(&self, clock: Clock) -> bool {
        match clock {
            Clock::HSI | Clock::HSE | Clock::PLL => self.cr.clock_is_on(clock),
            Clock::HSI48 | Clock::HSI14 => self.cr2.clock_is_on(clock),
        }
    }

    /// True iff the given clock is ready for use.
    pub fn clock_is_ready(&self, clock: Clock) -> bool {
        match clock {
            Clock::HSI | Clock::HSE | Clock::PLL => self.cr.clock_is_ready(clock),
            Clock::HSI48 | Clock::HSI14 => self.cr2.clock_is_ready(clock),
        }
    }
}

/// The clock-control register for the HSI, HSE and PLL clocks.
pub struct CR {
    base_addr: u32,
    value: u32,
}

impl Register for CR {
    closed spec fn spec_base_addr(&self) -> u32 {
        self.base_addr
    }

    closed spec fn spec_mem_offset(&self) -> u32 {
        0x0
    }

    fn new(base_addr: u32) -> (r: Self) {
        CR { base_addr, value: 0 }
    }

    fn base_addr(&self) -> (r: u32) {
        self.base_addr
    }

    fn mem_offset(&self) -> (r: u32) {
        0x0
    }
}

impl CR {
    /// The register word.
    pub closed spec fn spec_value(&self) -> u32 {
        self.value
    }

    /// The enable-bit mask of a clock this register controls.
    pub open spec fn spec_on_mask(clock: Clock) -> u32 {
        match clock {
            Clock::PLL => 1u32 << 24,
            Clock::HSE => 1u32 << 16,
            _ => 1u32,
        }
    }

    /// Turns the given clock's enable bit on or off; returns true when
    /// enabling, and whether the bit reads back clear when disabling.
    /// Only the HSI, HSE and PLL clocks live in this register.
    fn set_clock(&mut self, enable: bool, clock: Clock) -> (r: bool)
        requires
            clock == Clock::HSI || clock == Clock::HSE || clock == Clock::PLL,
        ensures
            enable ==> final(self).spec_value() == (old(self).spec_value() | CR::spec_on_mask(
                clock,
            )) && r,
            !enable ==> final(self).spec_value() == (old(self).spec_value() & !CR::spec_on_mask(
                clock,
            )) && r == (final(self).spec_value() & CR::spec_on_mask(clock) == 0),
    {
        let mask: u32 = match clock {
            Clock::PLL => 1u32 << 24,
            Clock::HSE => 1u32 << 16,
            _ => 1u32,
        };
        if enable {
            self.value = self.value | mask;
            true
        } else {
            self.value = self.value & !mask;
            (self.value & mask) == 0
        }
    }

    /// True iff the given clock's enable bit is set.
    fn clock_is_on(&self, clock: Clock) -> (r: bool)
        requires
            clock == Clock::HSI || clock == Clock::HSE || clock == Clock::PLL,
        ensures
            r == (self.spec_value() & CR::spec_on_mask(clock) != 0),
    {
        let mask: u32 = match clock {
            Clock::PLL => 1u32 << 24,
            Clock::HSE => 1u32 << 16,
            _ => 1u32,
        };
        (self.value & mask) != 0
    }

    /// True iff the given clock's ready bit is set.
    fn clock_is_ready(&self, clock: Clock) -> (r: bool)
        requires
            clock == Clock::HSI || clock == Clock::HSE || clock == Clock::PLL,
        ensures
            r == (self.spec_value() & (CR::spec_on_mask(clock) << 1) != 0),
    {
        let mask: u32 = match clock {
            Clock::PLL => 1u32 << 25,
            Clock::HSE => 1u32 << 17,
            _ => 2u32,
        };
        proof {
            assert(1u32 << 25 == (1u32 << 24) << 1 && 1u32 << 17 == (1u32 << 16) << 1 && 2u32
                == 1u32 << 1) by (bit_vector);
        }
        (self.value & mask) != 0
    }
}

/// The clock-control register for the two newer internal oscillators.
pub struct CR2 {
    base_addr: u32,
    value: u32,
}

impl Register for CR2 {
    closed spec fn spec_base_addr(&self) -> u32 {
        self.base_addr
    }

    closed spec fn spec_mem_offset(&self) -> u32 {
        0x34
    }

    fn new(base_addr: u32) -> (r: Self) {
        CR2 { base_addr, value: 0 }
    }

    fn base_addr(&self) -> (r: u32) {
        self.base_addr
    }

    fn mem_offset(&self) -> (r: u32) {
        0x34
    }
}

impl CR2 {
    /// The register word.
    pub closed spec fn spec_value(&self) -> u32 {
        self.value
    }

    /// The enable-bit mask of a clock this register controls.
    pub open spec fn spec_on_mask(clock: Clock) -> u32 {
        match clock {
            Clock::HSI48 => 1u32 << 16,
            _ => 1u32,
        }
    }

    /// Turns the given clock's enable bit on or off; only the two newer
    /// internal oscillators live in this register.
    fn set_clock(&mut self, enable: bool, clock: Clock) -> (r: bool)
        requires
            clock == Clock::HSI48 || clock == Clock::HSI14,
        ensures
            enable ==> final(self).spec_value() == (old(self).spec_value() | CR2::spec_on_mask(
                clock,
            )) && r,
            !enable ==> final(self).spec_value() == (old(self).spec_value() & !CR2::spec_on_mask(
                clock,
            )) && r == (final(self).spec_value() & CR2::spec_on_mask(clock) == 0),
    {
        let mask: u32 = match clock {
            Clock::HSI48 => 1u32 << 16,
            _ => 1u32,
        };
        if enable {
            self.value = self.value | mask;
            true
        } else {
            self.value = self.value & !mask;
            (self.value & mask) == 0
        }
    }

    /// True iff the given clock's enable bit is set.
    fn clock_is_on(&self, clock: Clock) -> (r: bool)
        requires
            clock == Clock::HSI48 || clock == Clock::HSI14,
        ensures
            r == (self.spec_value() & CR2::spec_on_mask(clock) != 0),
    {
        let mask: u32 = match clock {
            Clock::HSI48 => 1u32 << 16,
            _ => 1u32,
        };
        (self.value & mask) != 0
    }

    /// True iff the given clock's ready bit is set.
    fn clock_is_ready(&self, clock: Clock) -> (r: bool)
        requires
            clock == Clock::HSI48 || clock == Clock::HSI14,
        ensures
            r == (self.spec_value() & (CR2::spec_on_mask(clock) << 1) != 0),
    {
        let mask: u32 = match clock {
            Clock::HSI48 => 1u32 << 17,
            _ => 2u32,
        };
        proof {
            assert(1u32 << 17 == (1u32 << 16) << 1 && 2u32 == 1u32 << 1) by (bit_vector);
        }
        (self.value & mask) != 0
    }
}

/// The clock-configuration register: system clock source selection and
/// the phase-locked loop's source and multiplier.
pub struct CFGR {
    base_addr: u32,
    value: u32,
}

impl Register for CFGR {
    closed spec fn spec_base_addr(&self) -> u32 {
        self.base_addr
    }

    closed spec fn spec_mem_offset(&self) -> u32 {
        0x04
    }

    fn new(base_addr: u32) -> (r: Self) {
        CFGR { base_addr, value: 0 }
    }

    fn base_addr(&self) -> (r: u32) {
        self.base_addr
    }

    fn mem_offset(&self) -> (r: u32) {
        0x04
    }
}

impl CFGR {
    /// The register word.
    pub closed spec fn spec_value(&self) -> u32 {
        self.value
    }

    /// The system clock source the word selects.
    pub closed spec fn spec_system_clock_source(&self) -> Clock {
        let bits = (self.value >> 2) & 0b11;
        if bits == 0b00 {
            Clock::HSI
        } else if bits == 0b01 {
            Clock::HSE
        } else if bits == 0b10 {
            Clock::PLL
        } else {
            Clock::HSI48
        }
    }

    /// The phase-locked loop source the word selects.
    pub closed spec fn spec_pll_source(&self) -> Clock {
        let bits = (self.value >> 15) & 0b11;
        if bits == 0b10 {
            Clock::HSE
        } else if bits == 0b11 {
            Clock::HSI48
        } else {
            Clock::HSI
        }
    }

    /// The phase-locked loop multiplier the word selects, clamped to
    /// sixteen.
    pub closed spec fn spec_pll_multiplier(&self) -> u8 {
        let bits = (self.value >> 18) & 0b1111;
        if bits + 2 > 16 {
            16
        } else {
            (bits + 2) as u8
        }
    }

    /// The clock driving the system clock.
    fn get_system_clock_source(&self) -> (r: Clock)
        ensures
            r == self.spec_system_clock_source(),
    {
        let set_bits = (self.value >> 2) & 0b11;
        if set_bits == 0b00 {
            Clock::HSI
        } else if set_bits == 0b01 {
            Clock::HSE
        } else if set_bits == 0b10 {
            Clock::PLL
        } else {
            Clock::HSI48
        }
    }

    /// Selects the clock driving the system clock.
    fn set_system_clock_source(&mut self, clock: Clock)
        requires
            clock == Clock::HSI || clock == Clock::HSE || clock == Clock::PLL || clock
                == Clock::HSI48,
        ensures
            final(self).spec_system_clock_source() == clock,
            final(self).spec_pll_source() == old(self).spec_pll_source(),
            final(self).spec_pll_multiplier() == old(self).spec_pll_multiplier(),
            final(self).spec_base_addr() == old(self).spec_base_addr(),
    {
        let mask: u32 = match clock {
            Clock::HSI => 0b00,
            Clock::HSE => 0b01,
            Clock::PLL => 0b10,
            _ => 0b11,
        };
        let v = self.value;
        let new_v = (v & !(0b11u32 << 2)) | (mask << 2);
        proof {
            let m = mask;
            assert(m <= 3 ==> ((((v & !(0b11u32 << 2)) | (m << 2)) >> 2) & 0b11 == m && (((v & !(
            0b11u32 << 2)) | (m << 2)) >> 15) & 0b11 == (v >> 15) & 0b11 && (((v & !(0b11u32 << 2))
                | (m << 2)) >> 18) & 0b1111 == (v >> 18) & 0b1111)) by (bit_vector);
        }
        self.value = new_v;
    }

    /// The clock driving the phase-locked loop.
    fn get_pll_source(&self) -> (r: Clock)
        ensures
            r == self.spec_pll_source(),
    {
        let set_bits = (self.value >> 15) & 0b11;
        if set_bits == 0b10 {
            Clock::HSE
        } else if set_bits == 0b11 {
            Clock::HSI48
        } else {
            Clock::HSI
        }
    }

    /// Selects the clock driving the phase-locked loop.
    fn set_pll_source(&mut self, clock: Clock)
        requires
            clock == Clock::HSI || clock == Clock::HSE || clock == Clock::HSI48,
        ensures
            final(self).spec_pll_source() == clock,
            final(self).spec_system_clock_source() == old(self).spec_system_clock_source(),
            final(self).spec_pll_multiplier() == old(self).spec_pll_multiplier(),
            final(self).spec_base_addr() == old(self).spec_base_addr(),
    {
        let mask: u32 = match clock {
            Clock::HSI => 0b00,
            Clock::HSE => 0b10,
            _ => 0b11,
        };
        let v = self.value;
        let new_v = (v & !(0b11u32 << 15)) | (mask << 15);
        proof {
            let m = mask;
            assert(m <= 3 ==> ((((v & !(0b11u32 << 15)) | (m << 15)) >> 15) & 0b11 == m && (((v
                & !(0b11u32 << 15)) | (m << 15)) >> 2) & 0b11 == (v >> 2) & 0b11 && (((v & !(
            0b11u32 << 15)) | (m << 15)) >> 18) & 0b1111 == (v >> 18) & 0b1111)) by (bit_vector);
        }
        self.value = new_v;
    }

    /// The phase-locked loop's multiplier, between two and sixteen.
    fn get_pll_multiplier(&self) -> (r: u8)
        ensures
            r == self.spec_pll_multiplier(),
            2 <= r <= 16,
    {
        let set_bits = (self.value >> 18) & 0b1111;
        proof {
            let v = self.value;
            assert((v >> 18) & 0b1111 <= 15) by (bit_vector);
        }
        let mut mul = set_bits + 2;
        if mul > 16 {
            mul = 16;
        }
        mul as u8
    }

    /// Sets the phase-locked loop's multiplier, between two and
    /// sixteen.
    fn set_pll_multiplier(&mut self, mul: u8)
        requires
            2 <= mul <= 16,
        ensures
            final(self).spec_pll_multiplier() == mul,
            final(self).spec_system_clock_source() == old(self).spec_system_clock_source(),
            final(self).spec_pll_source() == old(self).spec_pll_source(),
            final(self).spec_base_addr() == old(self).spec_base_addr(),
    {
        let mask: u32 = (mul - 2) as u32;
        let v = self.value;
        let new_v = (v & !(0b1111u32 << 18)) | (mask << 18);
        proof {
            let m = mask;
            assert(m <= 14 ==> ((((v & !(0b1111u32 << 18)) | (m << 18)) >> 18) & 0b1111 == m && (((
            v & !(0b1111u32 << 18)) | (m << 18)) >> 2) & 0b11 == (v >> 2) & 0b11 && (((v & !(
            0b1111u32 << 18)) | (m << 18)) >> 15) & 0b11 == (v >> 15) & 0b11)) by (bit_vector);
        }
        self.value = new_v;
    }
}

/// The second configuration register: the phase-locked loop's input
/// divider.
pub struct CFGR2 {
    base_addr: u32,
    value: u32,
}

impl Register for CFGR2 {
    closed spec fn spec_base_addr(&self) -> u32 {
        self.base_addr
    }

    closed spec fn spec_mem_offset(&self) -> u32 {
        0x2C
    }

    fn new(base_addr: u32) -> (r: Self) {
        CFGR2 { base_addr, value: 0 }
    }

    fn base_addr(&self) -> (r: u32) {
        self.base_addr
    }

    fn mem_offset(&self) -> (r: u32) {
        0x2C
    }
}

impl CFGR2 {
    /// The register word.
    pub closed spec fn spec_value(&self) -> u32 {
        self.value
    }

    /// The input divider the word selects, between one and sixteen.
    pub closed spec fn spec_prediv_factor(&self) -> u8 {
        ((self.value & 0b1111) + 1) as u8
    }

    /// The phase-locked loop's input divider.
    fn get_prediv_factor(&self) -> (r: u8)
        ensures
            r == self.spec_prediv_factor(),
            1 <= r <= 16,
    {
        let bits = self.value & 0b1111;
        proof {
            let v = self.value;
            assert(v & 0b1111 <= 15) by (bit_vector);
        }
        (bits + 1) as u8
    }

    /// Sets the phase-locked loop's input divider, between one and
    /// sixteen.
    fn set_prediv_factor(&mut self, factor: u8)
        requires
            1 <= factor <= 16,
        ensures
            final(self).spec_prediv_factor() == factor,
            final(self).spec_base_addr() == old(self).spec_base_addr(),
    {
        let mask: u32 = (factor - 1) as u32;
        let v = self.value;
        let new_v = (v & !0b1111u32) | mask;
        proof {
            let m = mask;
            assert(m <= 15 ==> ((v & !0b1111u32) | m) & 0b1111 == m) by (bit_vector);
        }
        self.value = new_v;
    }
}

} // verus!
