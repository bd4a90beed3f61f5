use rust_hdl::hdl_core::short_bit_vec::ShortBitVec;
use rust_hdl::docs::vcd2svg::timed_value::{changes, TimedValue};
use rust_hdl::hdl_core::bit_vec::BitVec;
use rust_hdl::hdl_core::bits::{bit_cast, bits, Bits, LiteralType, ToBits};
use rust_hdl::hdl_core::code_writer::CodeWriter;
use rust_hdl::hdl_core::named_path::NamedPath;
use rust_hdl::toolchain::ecp5::generate_pcf;

#[test]
fn xor_twice_is_identity() {
    let x: Bits<32> = bits(0xCAFE_BABE);
    let y: Bits<32> = bits(0xFF00_00FF);
    let z = y ^ x;
    let w = z ^ y;
    assert_eq!(w, x);
    let a: Bits<70> = 0x1234_5678_9abc_def0.into();
    let b: Bits<70> = 0xffff_0000_ffff_0000.into();
    assert_eq!((a ^ b) ^ b, a);
}

#[test]
fn not_twice_is_identity() {
    let x: Bits<16> = bits(0xAAAA);
    assert_eq!(!x, 0x5555);
    assert_eq!(!!x, x);
    let y: Bits<40> = 0xDE_ADBE_EF.into();
    assert_eq!(!!y, y);
}

#[test]
fn sub_undoes_add() {
    let x: Bits<40> = bits(0xDEAD_0000);
    let y: Bits<40> = bits(0x0000_CAFE);
    assert_eq!((x + y) - y, x);
    assert_eq!((x - y) + y, x);
    let a: Bits<8> = bits(200);
    let b: Bits<8> = bits(100);
    assert_eq!((a + b) - b, a);
    assert_eq!(a + b, 44);
}

#[test]
fn addition_wraps_and_commutes() {
    let x: Bits<40> = bits(0xFF_FFFF_FFFF);
    let y = x + 1;
    assert_eq!(y, bits(0));
    let x: Bits<25> = bits(0xCAFD);
    assert_eq!(1 + x, x + 1);
    assert_eq!(1 + x, bits(0xCAFE));
}

#[test]
fn subtraction_wraps() {
    let x: Bits<16> = bits(0x40);
    let y: Bits<16> = bits(0x60);
    assert_eq!(x - y, bits(0xFFFF - 0x20 + 1));
    let x = bits::<32>(0xBABE);
    assert_eq!(0xB_BABE - x, bits(0xB_0000));
}

#[test]
fn widen_then_narrow_round_trips() {
    let x: Bits<12> = bits(0xEAF);
    let y: Bits<16> = bit_cast(x);
    assert_eq!(y, bits::<16>(0x0EAF));
    let z: Bits<12> = bit_cast(y);
    assert_eq!(z, x);
    let w: Bits<80> = bit_cast(x);
    let v: Bits<12> = bit_cast(w);
    assert_eq!(v, x);
    let x: Bits<16> = bits(0xDEAF);
    let y: Bits<12> = bit_cast(x);
    assert_eq!(y, bits::<12>(0xEAF));
}

#[test]
fn get_after_set_reads_back() {
    let mut x: Bits<40> = bits(0xDEAD_BEEF_CA);
    x.set_bits::<16>(8, bits(0xCAFE));
    assert_eq!(x, bits(0xDEAD_CAFE_CA));
    assert_eq!(x.get_bits::<16>(8), 0xCAFE);
    let mut y: Bits<100> = Bits::default();
    let z: Bits<20> = bits(0xABCDE);
    y.set_bits(70, z);
    assert_eq!(y.get_bits::<20>(70), z);
}

#[test]
fn shifts_move_bits() {
    let x: Bits<16> = bits(0xDEAD);
    assert_eq!(x << 8, bits(0xAD00));
    assert_eq!(x >> 8, bits(0x00DE));
    let y: Bits<48> = 0xdead_cafe_babe.into();
    assert_eq!(y >> 16, 0xdead_cafe);
    assert_eq!(y << 16, 0xcafe_babe_0000);
}

#[test]
fn comparisons_follow_values() {
    let x: Bits<16> = bits(52);
    let y: Bits<16> = bits(13);
    assert!(y < x);
    assert!(x < 135);
    assert!(x == 52);
    assert!(52 == x);
    let a: Bits<64> = 0xFFFF_FFFF_0000_0000.into();
    let b: Bits<64> = 0x0FFF_FFFF_FFFF_FFFF.into();
    assert!(b < a);
    assert!(a >= a);
}

#[test]
fn reductions() {
    let x: Bits<14> = bits(0xDEA);
    assert!(x.any());
    assert!(!x.all());
    let y: Bits<14> = Bits::default();
    assert!(!y.any());
    let z: Bits<14> = bits(0x3FFF);
    assert!(z.all());
    let p: Bits<12> = bits(0b1100_0100_1100);
    assert!(p.xor());
    let q: Bits<12> = bits(0b1100_0110_1100);
    assert!(!q.xor());
    assert!(Bits::<40>::mask().all());
    assert_eq!(Bits::<40>::mask(), bits(0xFF_FFFF_FFFF));
}

#[test]
fn conversions() {
    let x: Bits<6> = 12.into();
    assert_eq!(x.to_u8(), 12_u8);
    let x: Bits<12> = 12.into();
    assert_eq!(x.to_u16(), 12_u16);
    let x: Bits<80> = 12.into();
    assert_eq!(x.to_u128(), 12_u128);
    let x: Bits<128> = 0xDEADBEEF_CAFEBABE_1234ABCD_00005EA1_u128.to_bits();
    assert_eq!(x.to_u128(), 0xDEADBEEF_CAFEBABE_1234ABCD_00005EA1_u128);
    let b: Bits<1> = true.into();
    let t: bool = b.into();
    assert!(t);
    assert!(b == true);
    assert_eq!(Bits::<16>::count(), 1 << 16);
    assert_eq!(Bits::<40>::width(), 40);
    let l: LiteralType = Bits::<16>::from(0xDEAD).into();
    assert_eq!(l, 0xDEAD);
    let x: Bits<12> = bits(0b1100_0100_1100);
    assert_eq!(x.index(), 0b1100_0100_1100_usize);
    assert_eq!(Bits::<14>::default().len(), 14);
    assert!(!Bits::<14>::default().is_empty());
}

#[test]
fn product_of_16_bit_values() {
    let a: Bits<16> = bits(0xFFFF);
    let b: Bits<16> = bits(0xFFFF);
    let c: Bits<32> = a * b;
    assert_eq!(c, 0xFFFE_0001);
}

#[test]
fn add_flag() {
    let a: Bits<8> = bits(255);
    assert_eq!(a + true, 0);
    assert_eq!(a + false, 255);
}

#[test]
fn hex_of_odd_width() {
    let x: Bits<14> = bits(0xDEA);
    assert_eq!(x.to_lower_hex_string(), "0dea");
    let y: Bits<1> = bits(1);
    assert_eq!(y.to_binary_string(), "1");
}

#[test]
fn bitvec_resize_and_bits() {
    let a: BitVec<8> = 0xA5_u8.into();
    let b: BitVec<4> = a.resize();
    let c: BitVec<12> = a.resize();
    let bv: u8 = b.into();
    let cv: u16 = c.into();
    assert_eq!(bv, 0x5);
    assert_eq!(cv, 0xA5);
    assert!(a.get_bit(0));
    assert!(!a.get_bit(1));
    let d = a.replace_bit(1, true);
    let dv: u8 = d.into();
    assert_eq!(dv, 0xA7);
    assert!(!a.xor());
}

#[test]
fn named_path_pop_undoes_push() {
    let mut p = NamedPath::new();
    p.push("a");
    let before = p.to_string();
    p.push("b");
    assert_eq!(p.last(), "b");
    assert_eq!(p.parent(), before);
    p.pop();
    assert_eq!(p.to_string(), before);
}

#[test]
fn code_writer_pop_undoes_push() {
    let mut w = CodeWriter::new();
    w.push();
    w.pop();
    w.add_line("x");
    assert_eq!(w.to_string(), "x\n");
    let mut v = CodeWriter::new();
    v.write("a\nb");
    v.flush();
    let mut u = CodeWriter::new();
    u.writeln("a\nb");
    assert_eq!(v.to_string(), u.to_string());
    assert_eq!(u.to_string(), "a\nb\n");
}

#[test]
fn changes_keep_first_and_drop_repeats() {
    let vals = vec![
        TimedValue { time: 0, value: false },
        TimedValue { time: 1, value: false },
        TimedValue { time: 2, value: true },
        TimedValue { time: 3, value: true },
        TimedValue { time: 4, value: false },
    ];
    let c = changes(&vals);
    assert_eq!(
        c,
        vec![
            TimedValue { time: 0, value: false },
            TimedValue { time: 2, value: true },
            TimedValue { time: 4, value: false },
        ]
    );
    let empty: Vec<TimedValue<bool>> = vec![];
    assert!(changes(&empty).is_empty());
    let s = vec![
        TimedValue { time: 5, value: "a".to_string() },
        TimedValue { time: 6, value: "a".to_string() },
    ];
    assert_eq!(changes(&s).len(), 1);
}

#[test]
fn pcf_has_no_repeats() {
    let lines = vec!["A".to_string(), "B".to_string(), "A".to_string(), "B".to_string()];
    assert_eq!(generate_pcf(&lines), "A;\nB;\n");
}

#[test]
fn short_vectors_never_hold_high_bits() {
    let a: ShortBitVec<4> = ShortBitVec::from(0xFFFF_FFFFu32);
    let b: ShortBitVec<4> = ShortBitVec::from(0x1234_5679u32);
    assert_eq!(a.short(), 0xF);
    assert_eq!(b.short(), 0x9);
    for x in [a + b, a - b, a & b, a | b, a ^ b, !b, a << 3usize, a >> 1usize, b.replace_bit(3, true)] {
        assert!(x.short() < 16);
    }
    assert_eq!((a + b).short(), 0x8);
    assert_eq!((!b).short(), 0x6);
    assert_eq!((a << 3usize).short(), 0x8);
}
