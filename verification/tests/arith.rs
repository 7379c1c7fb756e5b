use synacor_vm::arith::{bit_and, bit_not, bit_or, wrapping_add, wrapping_mod, wrapping_mul};

#[test]
fn vm_test_mod_add() {
    let a: u16 = 32758u16;
    let b: u16 = 15u16;
    assert_eq!(wrapping_add(a, b), 5);
}

#[test]
fn vm_test_mod_mul() {
    let b: u16 = 500u16;
    let a: u16 = 77u16;
    let c: u16 = 5732u16;
    assert_eq!(wrapping_mul(a, b), c);
}

#[test]
fn async_vm_test_mod_add() {
    let a: u16 = 32758u16;
    let b: u16 = 15u16;
    assert_eq!(wrapping_add(a, b), 5);
}

#[test]
fn async_vm_test_mod_mul() {
    let b: u16 = 500u16;
    let a: u16 = 77u16;
    let c: u16 = 5732u16;
    assert_eq!(wrapping_mul(a, b), c);
}

#[test]
fn add_wraps_at_the_modulus() {
    assert_eq!(wrapping_add(32767, 1), 0);
    assert_eq!(wrapping_add(32767, 32767), 32766);
    assert_eq!(wrapping_add(0, 0), 0);
    assert_eq!(wrapping_add(1, 2), 3);
}

#[test]
fn mul_wraps_at_the_modulus() {
    assert_eq!(wrapping_mul(32767, 32767), 1);
    assert_eq!(wrapping_mul(2, 16384), 0);
    assert_eq!(wrapping_mul(3, 5), 15);
    assert_eq!(wrapping_mul(65535, 65535), (65535u32 * 65535u32 % 32768) as u16);
}

#[test]
fn remainder_is_the_integers() {
    assert_eq!(wrapping_mod(17, 5), 2);
    assert_eq!(wrapping_mod(5, 17), 5);
    assert_eq!(wrapping_mod(32767, 1), 0);
}

#[test]
fn complement_has_fifteen_bits() {
    assert_eq!(bit_not(0), 32767);
    assert_eq!(bit_not(32767), 0);
    assert_eq!(bit_not(0x00FF), 0x7F00);
}

#[test]
fn complement_undoes_itself() {
    let mut x: u16 = 0;
    while x <= 32767 {
        assert_eq!(bit_not(bit_not(x)), x);
        x += 1;
    }
}

#[test]
fn bitwise_and_or() {
    assert_eq!(bit_and(0b1100, 0b1010), 0b1000);
    assert_eq!(bit_or(0b1100, 0b1010), 0b1110);
    assert_eq!(bit_and(0xFFFF, 0xFFFF), 0x7FFF);
    assert_eq!(bit_or(0x8000, 1), 1);
}
