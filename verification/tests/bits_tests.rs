use rust_hdl::hdl_core::bits::{bit_cast, bits, clog2, Bits, LiteralType, ToBits};
use std::num::Wrapping;

#[test]
fn test_clog2_is_correct() {
    assert_eq!(clog2(1024), 10);
}

#[test]
fn test_print_as_binary() {
    let x = Bits::<16>::from(0b_1011_0100_1000_0000);
    let p = format!("x = {}", x.to_binary_string());
    assert_eq!(p, "x = 1011010010000000")
}

#[test]
fn test_print_as_lowercase_hex() {
    let x = Bits::<16>::from(0xcafe);
    let p = format!("x = {}", x.to_lower_hex_string());
    assert_eq!(p, "x = cafe");
}

#[test]
fn test_print_as_uppercase_hex() {
    let x = Bits::<16>::from(0xcafe);
    let p = format!("x = {}", x.to_upper_hex_string());
    assert_eq!(p, "x = CAFE");
}

#[test]
fn test_bits_from_int_via_bits() {
    let x: Bits<23> = bits(23);
    let u: LiteralType = x.into();
    assert_eq!(u, 23);
}

#[test]
fn test_get_bits_section() {
    let x: Bits<40> = 0xD_ADBE_EFCA.into();
    let y = x.get_bits::<32>(8).to_u32();
    let answer = 0xDAD_BEEF;
    assert_eq!(y, answer);
}

#[test]
fn test_short_from_u8() {
    let x: Bits<4> = 15.into();
    let y: LiteralType = x.into();
    assert_eq!(y, 15 & (0x0F));
}

#[test]
fn test_short_from_u16() {
    let x: Bits<12> = 1432.into();
    let y: LiteralType = x.into();
    assert_eq!(y, 1432 & (0x0FFF));
}

#[test]
fn test_short_from_u32() {
    let x: Bits<64> = 12434234.into();
    let y: LiteralType = x.into();
    assert_eq!(y, 12434234);
}

#[test]
fn test_from_u32() {
    let x: Bits<64> = 0xFFFF_FFFF.into();
    let y: LiteralType = x.into();
    assert_eq!(y, 0xFFFF_FFFF);
}

#[test]
fn bits_or_test() {
    let a: Bits<32> = 45.into();
    let b: Bits<32> = 10395.into();
    let c = a | b;
    let c_u32: LiteralType = c.into();
    assert_eq!(c_u32, 45 | 10395)
}

#[test]
fn bits_and_test() {
    let a: Bits<32> = 45.into();
    let b: Bits<32> = 10395.into();
    let c = a & b;
    let c_u32: LiteralType = c.into();
    assert_eq!(c_u32, 45 & 10395)
}

#[test]
fn bits_xor_test() {
    let a: Bits<32> = 45.into();
    let b: Bits<32> = 10395.into();
    let c = a ^ b;
    let c_u32: LiteralType = c.into();
    assert_eq!(c_u32, 45 ^ 10395)
}

#[test]
fn bits_not_test() {
    let a: Bits<32> = 45.into();
    let c = !a;
    let c_u32: LiteralType = c.into();
    assert_eq!(c_u32, (!45_u32) as LiteralType);
}

#[test]
fn bits_shr_test() {
    let a: Bits<32> = 10395.into();
    let c: Bits<32> = a >> 4;
    let c_u32: LiteralType = c.into();
    assert_eq!(c_u32, 10395 >> 4);
}

#[test]
fn bits_shr_test_pair() {
    let a: Bits<32> = 10395.into();
    let b: Bits<32> = 4.into();
    let c = a >> b;
    let c_u32: LiteralType = c.into();
    assert_eq!(c_u32, 10395 >> 4);
}

#[test]
fn bits_shl_test() {
    let a: Bits<32> = 10395.into();
    let c = a << 24;
    let c_u32 = c.to_u32();
    assert_eq!(c_u32, 10395 << 24);
}

#[test]
fn bits_shl_test_pair() {
    let a: Bits<32> = 10395.into();
    let b: Bits<32> = 4.into();
    let c = a << b;
    let c_u32: LiteralType = c.into();
    assert_eq!(c_u32, 10395 << 4);
}

#[test]
fn bits_add_works() {
    let a: Bits<32> = 10234.into();
    let b: Bits<32> = 19423.into();
    let c = a + b;
    let c_u32: LiteralType = c.into();
    assert_eq!(c_u32, 10234 + 19423);
}

#[test]
fn add_int_works() {
    let a: Bits<32> = 10234.into();
    let b = 19423;
    let c: Bits<32> = a + b;
    let c_u32: LiteralType = c.into();
    assert_eq!(c_u32, 10234 + 19423);
}

#[test]
fn bits_add_works_with_overflow() {
    let x = 2_042_102_334_u32;
    let y = 2_942_142_512_u32;
    let a: Bits<32> = x.to_bits();
    let b: Bits<32> = y.to_bits();
    let c = a + b;
    let c_u32 = c.to_u32();
    assert_eq!(Wrapping(c_u32), Wrapping(x) + Wrapping(y));
}

#[test]
fn bits_sub_works() {
    let x = 2_042_102_334_u32;
    let y = 2_942_142_512_u32;
    let a: Bits<32> = x.to_bits();
    let b: Bits<32> = y.to_bits();
    let c = a - b;
    let c_u32 = c.to_u32();
    assert_eq!(Wrapping(c_u32), Wrapping(x) - Wrapping(y));
}

#[test]
fn sub_int_works() {
    let x = 2_042_102_334_u32;
    let y = 2_942_142_512;
    let a: Bits<32> = x.to_bits();
    let c = a - y;
    let c_u32 = c.to_u32();
    assert_eq!(Wrapping(c_u32), Wrapping(x) - Wrapping(y as u32));
}

#[test]
fn bits_eq_works() {
    let x = 2_032_142_351;
    let y = 2_942_142_512;
    let a: Bits<32> = x.into();
    let b: Bits<32> = x.into();
    let c: Bits<32> = y.into();
    assert_eq!(a, b);
    assert_ne!(a, c)
}

#[test]
fn mask_works() {
    let a: Bits<48> = 0xFFFF_FFFF_FFFF.into();
    let b = Bits::<48>::mask();
    assert_eq!(a, b);
    let a: Bits<16> = 0xFFFF.into();
    let b = Bits::<16>::mask();
    assert_eq!(a, b)
}

#[test]
fn get_bit_works() {
    // 0101 = 5
    let a: Bits<48> = 0xFFFF_FFFF_FFF5.into();
    assert!(a.get_bit(0));
    assert!(!a.get_bit(1));
    assert!(a.get_bit(2));
    assert!(!a.get_bit(3));
    let c: Bits<5> = 3.into();
    assert!(!a.get_bit(c.index()));
}

#[test]
fn test_bit_cast_short() {
    let a: Bits<8> = 0xFF.into();
    let b: Bits<16> = bit_cast(a);
    assert_eq!(b, 0xFF);
    let c: Bits<4> = bit_cast(a);
    assert_eq!(c, 0xF);
}

#[test]
fn test_bit_cast_long() {
    let a: Bits<48> = 0xdead_cafe_babe.into();
    let b: Bits<44> = bit_cast(a);
    assert_eq!(b, 0xead_cafe_babe);
    let b: Bits<32> = bit_cast(a);
    assert_eq!(b, 0xcafe_babe);
}

#[test]
fn test_bit_extract_long() {
    let a: Bits<48> = 0xdead_cafe_babe.into();
    let b: Bits<44> = a.get_bits(4);
    assert_eq!(b, 0x0dea_dcaf_ebab);
    let b: Bits<32> = a.get_bits(16);
    assert_eq!(b, 0xdead_cafe);
}

#[test]
fn test_set_bit() {
    let a: Bits<48> = 0xdead_cafe_babe.into();
    let mut b = a;
    for i in 4..8 {
        b = b.replace_bit(i, false)
    }
    assert_eq!(b, 0xdead_cafe_ba0e);
}

#[test]
fn test_set_bits() {
    let a: Bits<16> = 0xdead.into();
    let b: Bits<4> = 0xf.into();
    let mut c = a;
    c.set_bits(4, b);
    assert_eq!(c, 0xdefd);
    let a: Bits<48> = 0xdead_cafe_babe.into();
    let b: Bits<8> = 0xde.into();
    let mut c = a;
    c.set_bits(16, b);
    assert_eq!(c, 0xdead_cade_babe);
}

#[test]
fn test_constants_and_bits() {
    let a: Bits<16> = 0xdead.into();
    let b = a + 1;
    let c = 1 + a;
    println!("{}", b.to_lower_hex_string());
    assert_eq!(b, 0xdeae);
    assert_eq!(b, c);
}

#[test]
fn test_clog2() {
    let a_width: usize = clog2(250);
    assert_eq!(a_width, 8);
    let a: Bits<8> = 153.into();
    println!("{}", a.to_lower_hex_string());
    assert_eq!(a.len(), 8);
    assert_eq!(clog2(1024), 10);
}

#[test]
fn test_clog2_inline() {
    let a_width: usize = clog2(1000);
    assert_eq!(a_width, 10);
    let a: Bits<10> = 1023.into();
    assert_eq!(a.len(), 10);
}

#[test]
fn test_default() {
    const N: usize = 128;
    let a = Bits::<N>::default();
    assert_eq!(a, 0);
}

#[test]
fn test_composite() {
    // A command of 2 type bits, an active flag and a 6-bit length packs into 9 bits.
    let cmd_read: Bits<2> = 1.into();
    let active: Bits<1> = true.into();
    let len: Bits<6> = 35_usize.to_bits();
    let mut y: Bits<9> = Bits::default();
    y.set_bits(0, cmd_read);
    y.set_bits(2, active);
    y.set_bits(3, len);
    assert_eq!(y.get_bits::<2>(0), 1u64);
    assert_eq!(y.get_bits::<1>(2), true);
    assert_eq!(y.get_bits::<6>(3), 35_u64);
}
