use macro_workshop::bit_types::{B1, B17, B33, B64, B8};
use macro_workshop::specifier::{
    bits_types, byte_size, discriminant_in_range, specifier_bits, storage_bits, variant_of_value,
    Specifier, SpecifierError,
};
use macro_workshop::text;

#[test]
fn storage_widths() {
    assert_eq!(storage_bits(1), 8);
    assert_eq!(storage_bits(8), 8);
    assert_eq!(storage_bits(9), 16);
    assert_eq!(storage_bits(17), 32);
    assert_eq!(storage_bits(33), 64);
    assert_eq!(storage_bits(64), 64);
}

#[test]
fn byte_sizes() {
    assert_eq!(byte_size(1), 1);
    assert_eq!(byte_size(8), 1);
    assert_eq!(byte_size(9), 2);
    assert_eq!(byte_size(32), 4);
}

#[test]
fn predefined_types() {
    let t = bits_types();
    assert_eq!(t.len(), 64);
    assert_eq!(t[0].name, "B1");
    assert_eq!(t[0].unit_bits, 8);
    assert_eq!(t[23].name, "B24");
    assert_eq!(t[23].bits, 24);
    assert_eq!(t[23].unit_bits, 32);
    assert_eq!(t[31].name, "B32");
    assert_eq!(t[32].name, "B33");
    assert_eq!(t[32].unit_bits, 64);
    assert_eq!(t[63].name, "B64");
    assert_eq!(t[63].bits, 64);
    assert_eq!(t[63].unit_bits, 64);
}

#[test]
fn enum_widths_need_power_of_two_counts() {
    assert_eq!(specifier_bits(1), Ok(0));
    assert_eq!(specifier_bits(2), Ok(1));
    assert_eq!(specifier_bits(8), Ok(3));
    assert_eq!(specifier_bits(1 << 40), Ok(40));
    assert_eq!(specifier_bits(0), Err(SpecifierError::VariantCountNotPowerOfTwo));
    assert_eq!(specifier_bits(6), Err(SpecifierError::VariantCountNotPowerOfTwo));
    assert_eq!(specifier_bits(usize::MAX), Err(SpecifierError::VariantCountNotPowerOfTwo));
    assert_eq!(
        SpecifierError::VariantCountNotPowerOfTwo.message(),
        "BitfieldSpecifier expected a number of variants which is a power of 2"
    );
}

#[test]
fn discriminant_ranges() {
    assert!(discriminant_in_range(2, 2));
    assert!(!discriminant_in_range(4, 2));
    assert!(discriminant_in_range(0, 0));
    assert!(!discriminant_in_range(1, 0));
}

#[test]
fn variants_by_value() {
    let d = vec![0u64, 4, 2, 4];
    assert_eq!(variant_of_value(&d, 4), Some(1));
    assert_eq!(variant_of_value(&d, 2), Some(2));
    assert_eq!(variant_of_value(&d, 3), None);
}

#[test]
fn bool_is_stored_as_one_bit() {
    assert_eq!(<bool as Specifier>::BITS, 1);
    assert_eq!(<bool as Specifier>::to_bytes(true), 1);
    assert_eq!(<bool as Specifier>::to_bytes(false), 0);
    assert!(<bool as Specifier>::try_from(1));
    assert!(!<bool as Specifier>::try_from(2));
}

#[test]
fn text_helpers() {
    assert_eq!(text::concat("ab", "cd"), "abcd");
}

#[test]
fn bool_member_reads_back_what_was_written() {
    for b in [false, true] {
        assert_eq!(<bool as Specifier>::try_from(<bool as Specifier>::to_bytes(b)), b);
    }
}

#[derive(Debug, Clone, Copy, PartialEq)]
enum TriggerMode {
    Edge,
    Level,
}

impl Specifier for TriggerMode {
    const BITS: usize = 1;
    type UNIT = u8;
    type InOut = TriggerMode;

    fn to_bytes(input: TriggerMode) -> u8 {
        match input {
            TriggerMode::Edge => 0,
            TriggerMode::Level => 1,
        }
    }

    fn try_from(v: u8) -> TriggerMode {
        match v {
            0 => TriggerMode::Edge,
            1 => TriggerMode::Level,
            _ => unreachable!(),
        }
    }
}

#[test]
fn user_member_type_round_trips_through_a_field() {
    let mut data = [0u8; 1];
    macro_workshop::bitfield::set_field(&mut data, 3, TriggerMode::BITS, <TriggerMode as Specifier>::to_bytes(TriggerMode::Level) as u64);
    assert_eq!(data, [0b0000_1000]);
    let back = macro_workshop::bitfield::get_field(&data, 3, TriggerMode::BITS);
    assert_eq!(<TriggerMode as Specifier>::try_from(back as u8), TriggerMode::Level);
}

#[test]
fn predefined_types_store_values_unchanged() {
    assert_eq!(<B1 as Specifier>::BITS, 1);
    assert_eq!(<B8 as Specifier>::to_bytes(200u8), 200u8);
    assert_eq!(<B17 as Specifier>::try_from(70000u32), 70000u32);
    assert_eq!(<B33 as Specifier>::BITS, 33);
    assert_eq!(<B33 as Specifier>::to_bytes(1u64 << 32), 1u64 << 32);
    assert_eq!(<B64 as Specifier>::try_from(u64::MAX), u64::MAX);
}

#[test]
fn distinct_discriminants_read_back_their_variant() {
    let d = vec![0u64, 3, 1, 2];
    for (i, v) in d.iter().enumerate() {
        assert_eq!(variant_of_value(&d, *v), Some(i));
    }
}
