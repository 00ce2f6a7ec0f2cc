use macro_workshop::check::CheckDiscriminantInRange;

const BITS: usize = 2;

#[allow(dead_code)]
enum Abc {
    A,
    B,
    C,
}

impl CheckDiscriminantInRange<[(); Abc::C as usize]> for Abc {
    type CheckType = [(); ((Abc::C as usize) < (0x01_usize << BITS)) as usize];
}

#[test]
fn testcheck() {
    println!("{}", ((Abc::A as usize) < (0x01_usize << BITS)) as usize);
    println!("{},{}", (Abc::A as usize), (0x01_usize << BITS));
}
