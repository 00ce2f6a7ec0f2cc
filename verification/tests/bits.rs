use macro_workshop::bits::BitOpt;

#[test]
fn test_bit_opt() {
    assert_eq!(8, u8::length());
    let mut field = 0b11110010u8;
    field.set_bit(0, true);
    field.set_bit(0, 1u8 == 1);
    assert_eq!(0b11110011, field);
    println!("v1={:08b}", field);
    field.set_bits(1..5, 0b00000111u8);
    println!("v2={:08b}", field);
    assert_eq!(0b11101111, field);
}

#[test]
fn lengths_of_all_types() {
    assert_eq!(u8::length(), 8);
    assert_eq!(u16::length(), 16);
    assert_eq!(u32::length(), 32);
    assert_eq!(u64::length(), 64);
    assert_eq!(usize::length(), usize::BITS as usize);
    assert_eq!(i8::length(), 8);
    assert_eq!(i16::length(), 16);
    assert_eq!(i32::length(), 32);
    assert_eq!(i64::length(), 64);
    assert_eq!(isize::length(), isize::BITS as usize);
}

#[test]
fn get_bit_reads_single_bits() {
    let v = 0b1010_1010u8;
    assert!(!v.get_bit(0));
    assert!(v.get_bit(1));
    assert!(v.get_bit(7));
    assert!((-1i64).get_bit(63));
    assert!(!(i32::MAX).get_bit(31));
}

#[test]
fn get_bits_unsigned_zero_fills() {
    assert_eq!(0b1010_1010u8.get_bits(0..2), 0b10);
    assert_eq!(0b1010_1010u8.get_bits(4..8), 0b1010);
    assert_eq!(0xdead_beefu32.get_bits(16..32), 0xdead);
    assert_eq!(u64::MAX.get_bits(0..64), u64::MAX);
}

#[test]
fn get_bits_signed_sign_extends() {
    // bits 0..2 of 0b1010_1010 are 0b10; the top bit of the field is copied upwards
    assert_eq!((0b1010_1010u8 as i8).get_bits(0..2), -2);
    assert_eq!(0b0101i8.get_bits(0..3), -3);
    assert_eq!(0b0101i8.get_bits(0..4), 5);
    assert_eq!((-8i16).get_bits(3..16), -1);
}

#[test]
fn set_bit_clears_and_sets() {
    let mut v = 0u16;
    v.set_bit(15, true);
    assert_eq!(v, 0x8000);
    v.set_bit(15, false);
    assert_eq!(v, 0);
    let mut w = -1i8;
    w.set_bit(7, false);
    assert_eq!(w, 127);
}

#[test]
fn set_bits_unsigned_ors_overflowing_value() {
    // the value 0b1111 does not fit in the two bits 0..2: its upper bits are or-ed above
    let mut v = 0u8;
    v.set_bits(0..2, 0b1111);
    assert_eq!(v, 0b1111);
    let mut w = 0xffu8;
    w.set_bits(2..4, 0);
    assert_eq!(w, 0b1111_0011);
}

#[test]
fn set_bits_signed_replaces_upper_bits() {
    // for a signed type the mask reaches the top: everything from the start bit is replaced
    let mut v = -1i8;
    v.set_bits(2..4, 0b01);
    assert_eq!(v, 0b0000_0111);
}

#[test]
fn set_bits_then_get_bits_gives_low_bits() {
    let mut v = 0xa5a5_a5a5u32;
    v.set_bits(8..20, 0xabc);
    assert_eq!(v.get_bits(8..20), 0xabc);
    assert_eq!(v.get_bits(0..8), 0xa5);
    let mut s = 0i32;
    s.set_bits(4..8, 0b1010);
    assert_eq!(s.get_bits(4..8), 0b1010i32.get_bits(0..4));
}
