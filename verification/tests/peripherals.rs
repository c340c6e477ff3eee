use altos_core::heap::{align_down, align_up, BumpAllocator};
use altos_core::peripheral::rcc::{rcc, Clock};
use altos_core::peripheral::systick::systick;
use altos_core::peripheral::usart::{USARTCR, WordLength};
use altos_core::peripheral::Peripheral;
use altos_core::system_control::scb;

#[test]
fn align_down_truncates() {
    assert_eq!(align_down(0x1007, 8), 0x1000);
    assert_eq!(align_down(0x1000, 8), 0x1000);
    assert_eq!(align_down(0x1007, 0), 0x1007);
}

#[test]
fn align_up_rounds() {
    assert_eq!(align_up(0x1001, 8), 0x1008);
    assert_eq!(align_up(0x1000, 8), 0x1000);
    assert_eq!(align_up(7, 4), 8);
}

#[test]
fn bump_allocator_hands_out_aligned_blocks() {
    let mut heap = BumpAllocator::new();
    heap.init(0x100, 0x100);

    let a = heap.allocate(16, 4).expect("fits");
    assert_eq!(a, 0x100);
    let b = heap.allocate(5, 4).expect("fits");
    assert_eq!(b, 0x110);
    let c = heap.allocate(3, 4).expect("fits");
    assert_eq!(c, 0x118);

    // a block past the end of the region is refused
    assert!(heap.allocate(0x1000, 4).is_none());
}

#[test]
fn rcc_selects_system_clock_source() {
    let mut controller = rcc();
    assert_eq!(controller.mem_addr(), 0x4002_1000);

    controller.set_system_clock_source(Clock::HSI48);
    assert_eq!(controller.get_system_clock_source(), Clock::HSI48);
    assert_eq!(controller.get_system_clock_rate(), 48_000_000);

    controller.set_system_clock_source(Clock::HSE);
    assert_eq!(controller.get_system_clock_source(), Clock::HSE);
    assert_eq!(controller.get_system_clock_rate(), 8_000_000);
}

#[test]
fn rcc_pll_rate_uses_divider_and_multiplier() {
    let mut controller = rcc();

    controller.set_pll_source(Clock::HSE);
    controller.set_pll_multiplier(6);
    controller.set_pll_prediv_factor(2);
    controller.set_system_clock_source(Clock::PLL);

    assert_eq!(controller.get_pll_source(), Clock::HSE);
    assert_eq!(controller.get_pll_multiplier(), 6);
    assert_eq!(controller.get_pll_prediv_factor(), 2);
    // eight megahertz halved then multiplied by six
    assert_eq!(controller.get_system_clock_rate(), 24_000_000);
}

#[test]
fn rcc_clock_enable_round_trip() {
    let mut controller = rcc();

    assert!(!controller.clock_is_on(Clock::HSE));
    controller.enable_clock(Clock::HSE);
    assert!(controller.clock_is_on(Clock::HSE));
    assert!(controller.disable_clock(Clock::HSE));
    assert!(!controller.clock_is_on(Clock::HSE));

    controller.enable_clock(Clock::HSI48);
    assert!(controller.clock_is_on(Clock::HSI48));
    assert!(!controller.clock_is_on(Clock::HSI14));
}

#[test]
fn systick_reload_and_clear() {
    let mut timer = systick();
    assert_eq!(timer.mem_addr(), 0xE000_E010);

    timer.set_reload_value(0x1234);
    assert_eq!(timer.get_reload_value(), 0x1234);

    timer.enable_counter();
    timer.enable_interrupts();
    timer.clear_current_value();
    assert_eq!(timer.get_current_value(), 0);
}

#[test]
fn usart_word_length_bits() {
    let mut control = USARTCR::new(0x4001_3800);

    control.set_word_length(WordLength::Nine);
    control.set_word_length(WordLength::Eight);
    control.set_word_length(WordLength::Seven);
}

#[test]
fn scb_pends_the_switch() {
    let mut block = scb();
    assert_eq!(block.mem_addr, 0xE000_ED00);

    block.set_pend_sv();
    assert_eq!(block.icsr.value & (1 << 28), 1 << 28);
    block.clear_pend_sv();
    assert_eq!(block.icsr.value & (1 << 27), 1 << 27);
}
