use altos_core::math::{__aeabi_uidiv, __aeabi_uidivmod};

#[test]
fn divide_even() {
    assert_eq!(10, __aeabi_uidiv(100, 10));
}

#[test]
fn divide_uneven() {
    assert_eq!(10, __aeabi_uidiv(105, 10));
}

#[test]
fn divide_denominator_bigger() {
    assert_eq!(0, __aeabi_uidiv(5, 10));
}

#[test]
fn mod_even() {
    assert_eq!(0, __aeabi_uidivmod(100, 10));
}

#[test]
fn mod_uneven() {
    assert_eq!(5, __aeabi_uidivmod(105, 10));
}

#[test]
fn mod_denominator_bigger() {
    assert_eq!(5, __aeabi_uidivmod(5, 10));
}

#[test]
fn divide_by_one() {
    assert_eq!(0xFFFF_FFFF, __aeabi_uidiv(0xFFFF_FFFF, 1));
}

#[test]
fn divide_large_denominator() {
    assert_eq!(1, __aeabi_uidiv(0xFFFF_FFFF, 0x8000_0000));
    assert_eq!(0x7FFF_FFFF, __aeabi_uidivmod(0xFFFF_FFFF, 0x8000_0000));
}
