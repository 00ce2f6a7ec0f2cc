use macro_workshop::bitfield::{get_field, set_field};

pub struct MyFourBytes {
    data: [u8; 4],
}

impl MyFourBytes {
    pub fn new() -> Self {
        Self { data: [0; 4] }
    }

    pub fn get_c(&self) -> u64 {
        get_field(&self.data, 1, 24)
    }

    pub fn set_c(&mut self, v: u64) {
        set_field(&mut self.data, 1, 24, v);
    }
}

#[test]
fn test_name() {
    println!("=={},{}", (1 - 1) / 8 + 1, 8 % 8);
    let mut bitfield = MyFourBytes::new();
    let v = 111150u64;
    println!("{:08b}", v);
    bitfield.set_c(v);
    println!("============");
    println!("{:08b}", bitfield.get_c());
    assert_eq!(v, bitfield.get_c());
}

#[test]
fn fields_do_not_disturb_each_other() {
    // a: 1 bit, b: 3 bits, c: 4 bits, d: 24 bits
    let mut data = [0u8; 4];
    set_field(&mut data, 0, 1, 1);
    set_field(&mut data, 1, 3, 0b101);
    set_field(&mut data, 4, 4, 0b1110);
    set_field(&mut data, 8, 24, 0xabcdef);
    assert_eq!(get_field(&data, 0, 1), 1);
    assert_eq!(get_field(&data, 1, 3), 0b101);
    assert_eq!(get_field(&data, 4, 4), 0b1110);
    assert_eq!(get_field(&data, 8, 24), 0xabcdef);
    assert_eq!(data, [0b1110_1011, 0xef, 0xcd, 0xab]);
}

#[test]
fn byte_aligned_eight_bit_field() {
    let mut data = [0u8; 2];
    set_field(&mut data, 8, 8, 0x5a);
    assert_eq!(data, [0, 0x5a]);
    assert_eq!(get_field(&data, 8, 8), 0x5a);
}

#[test]
fn sixty_four_bit_field_across_nine_bytes() {
    let mut data = [0u8; 9];
    set_field(&mut data, 3, 64, u64::MAX - 1);
    assert_eq!(get_field(&data, 3, 64), u64::MAX - 1);
    assert_eq!(get_field(&data, 0, 3), 0);
}

#[test]
fn too_large_value_spills_into_the_rest_of_its_byte() {
    // writing 0b1111 into a 2-bit field ors its upper bits into the same byte
    let mut data = [0u8; 2];
    set_field(&mut data, 0, 2, 0b1111);
    assert_eq!(data, [0b1111, 0]);
    assert_eq!(get_field(&data, 0, 2), 0b11);
}

#[test]
fn reading_returns_only_the_field() {
    let data = [0xffu8, 0xff];
    assert_eq!(get_field(&data, 3, 5), 0b11111);
    assert_eq!(get_field(&data, 0, 0), 0);
}
