//! The predefined member types `B1` to `B64` of bit fields. A value of `Bn`
//! is read and written as the storage integer itself, unchanged. The types
//! are never constructed: they serve as types alone.

use crate::specifier::Specifier;
use vstd::prelude::*;

verus! {

/// A member of 1 bits, stored in a `u8`.
pub struct B1 {
    never: (),
}

impl Specifier for B1 {
    const BITS: usize = 1;

    type UNIT = u8;

    type InOut = u8;

    fn to_bytes(input: u8) -> u8
        returns
            input,
    {
        input
    }

    fn try_from(v: u8) -> u8
        returns
            v,
    {
        v
    }
}

/// A member of 2 bits, stored in a `u8`.
pub struct B2 {
    never: (),
}

impl Specifier for B2 {
    const BITS: usize = 2;

    type UNIT = u8;

    type InOut = u8;

    fn to_bytes(input: u8) -> u8
        returns
            input,
    {
        input
    }

    fn try_from(v: u8) -> u8
        returns
            v,
    {
        v
    }
}

/// A member of 3 bits, stored in a `u8`.
pub struct B3 {
    never: (),
}

impl Specifier for B3 {
    const BITS: usize = 3;

    type UNIT = u8;

    type InOut = u8;

    fn to_bytes(input: u8) -> u8
        returns
            input,
    {
        input
    }

    fn try_from(v: u8) -> u8
        returns
            v,
    {
        v
    }
}

/// A member of 4 bits, stored in a `u8`.
pub struct B4 {
    never: (),
}

impl Specifier for B4 {
    const BITS: usize = 4;

    type UNIT = u8;

    type InOut = u8;

    fn to_bytes(input: u8) -> u8
        returns
            input,
    {
        input
    }

    fn try_from(v: u8) -> u8
        returns
            v,
    {
        v
    }
}

/// A member of 5 bits, stored in a `u8`.
pub struct B5 {
    never: (),
}

impl Specifier for B5 {
    const BITS: usize = 5;

    type UNIT = u8;

    type InOut = u8;

    fn to_bytes(input: u8) -> u8
        returns
            input,
    {
        input
    }

    fn try_from(v: u8) -> u8
        returns
            v,
    {
        v
    }
}

/// A member of 6 bits, stored in a `u8`.
pub struct B6 {
    never: (),
}

impl Specifier for B6 {
    const BITS: usize = 6;

    type UNIT = u8;

    type InOut = u8;

    fn to_bytes(input: u8) -> u8
        returns
            input,
    {
        input
    }

    fn try_from(v: u8) -> u8
        returns
            v,
    {
        v
    }
}

/// A member of 7 bits, stored in a `u8`.
pub struct B7 {
    never: (),
}

impl Specifier for B7 {
    const BITS: usize = 7;

    type UNIT = u8;

    type InOut = u8;

    fn to_bytes(input: u8) -> u8
        returns
            input,
    {
        input
    }

    fn try_from(v: u8) -> u8
        returns
            v,
    {
        v
    }
}

/// A member of 8 bits, stored in a `u8`.
pub struct B8 {
    never: (),
}

impl Specifier for B8 {
    const BITS: usize = 8;

    type UNIT = u8;

    type InOut = u8;

    fn to_bytes(input: u8) -> u8
        returns
            input,
    {
        input
    }

    fn try_from(v: u8) -> u8
        returns
            v,
    {
        v
    }
}

/// A member of 9 bits, stored in a `u16`.
pub struct B9 {
    never: (),
}

impl Specifier for B9 {
    const BITS: usize = 9;

    type UNIT = u16;

    type InOut = u16;

    fn to_bytes(input: u16) -> u16
        returns
            input,
    {
        input
    }

    fn try_from(v: u16) -> u16
        returns
            v,
    {
        v
    }
}

/// A member of 10 bits, stored in a `u16`.
pub struct B10 {
    never: (),
}

impl Specifier for B10 {
    const BITS: usize = 10;

    type UNIT = u16;

    type InOut = u16;

    fn to_bytes(input: u16) -> u16
        returns
            input,
    {
        input
    }

    fn try_from(v: u16) -> u16
        returns
            v,
    {
        v
    }
}

/// A member of 11 bits, stored in a `u16`.
pub struct B11 {
    never: (),
}

impl Specifier for B11 {
    const BITS: usize = 11;

    type UNIT = u16;

    type InOut = u16;

    fn to_bytes(input: u16) -> u16
        returns
            input,
    {
        input
    }

    fn try_from(v: u16) -> u16
        returns
            v,
    {
        v
    }
}

/// A member of 12 bits, stored in a `u16`.
pub struct B12 {
    never: (),
}

impl Specifier for B12 {
    const BITS: usize = 12;

    type UNIT = u16;

    type InOut = u16;

    fn to_bytes(input: u16) -> u16
        returns
            input,
    {
        input
    }

    fn try_from(v: u16) -> u16
        returns
            v,
    {
        v
    }
}

/// A member of 13 bits, stored in a `u16`.
pub struct B13 {
    never: (),
}

impl Specifier for B13 {
    const BITS: usize = 13;

    type UNIT = u16;

    type InOut = u16;

    fn to_bytes(input: u16) -> u16
        returns
            input,
    {
        input
    }

    fn try_from(v: u16) -> u16
        returns
            v,
    {
        v
    }
}

/// A member of 14 bits, stored in a `u16`.
pub struct B14 {
    never: (),
}

impl Specifier for B14 {
    const BITS: usize = 14;

    type UNIT = u16;

    type InOut = u16;

    fn to_bytes(input: u16) -> u16
        returns
            input,
    {
        input
    }

    fn try_from(v: u16) -> u16
        returns
            v,
    {
        v
    }
}

/// A member of 15 bits, stored in a `u16`.
pub struct B15 {
    never: (),
}

impl Specifier for B15 {
    const BITS: usize = 15;

    type UNIT = u16;

    type InOut = u16;

    fn to_bytes(input: u16) -> u16
        returns
            input,
    {
        input
    }

    fn try_from(v: u16) -> u16
        returns
            v,
    {
        v
    }
}

/// A member of 16 bits, stored in a `u16`.
pub struct B16 {
    never: (),
}

impl Specifier for B16 {
    const BITS: usize = 16;

    type UNIT = u16;

    type InOut = u16;

    fn to_bytes(input: u16) -> u16
        returns
            input,
    {
        input
    }

    fn try_from(v: u16) -> u16
        returns
            v,
    {
        v
    }
}

/// A member of 17 bits, stored in a `u32`.
pub struct B17 {
    never: (),
}

impl Specifier for B17 {
    const BITS: usize = 17;

    type UNIT = u32;

    type InOut = u32;

    fn to_bytes(input: u32) -> u32
        returns
            input,
    {
        input
    }

    fn try_from(v: u32) -> u32
        returns
            v,
    {
        v
    }
}

/// A member of 18 bits, stored in a `u32`.
pub struct B18 {
    never: (),
}

impl Specifier for B18 {
    const BITS: usize = 18;

    type UNIT = u32;

    type InOut = u32;

    fn to_bytes(input: u32) -> u32
        returns
            input,
    {
        input
    }

    fn try_from(v: u32) -> u32
        returns
            v,
    {
        v
    }
}

/// A member of 19 bits, stored in a `u32`.
pub struct B19 {
    never: (),
}

impl Specifier for B19 {
    const BITS: usize = 19;

    type UNIT = u32;

    type InOut = u32;

    fn to_bytes(input: u32) -> u32
        returns
            input,
    {
        input
    }

    fn try_from(v: u32) -> u32
        returns
            v,
    {
        v
    }
}

/// A member of 20 bits, stored in a `u32`.
pub struct B20 {
    never: (),
}

impl Specifier for B20 {
    const BITS: usize = 20;

    type UNIT = u32;

    type InOut = u32;

    fn to_bytes(input: u32) -> u32
        returns
            input,
    {
        input
    }

    fn try_from(v: u32) -> u32
        returns
            v,
    {
        v
    }
}

/// A member of 21 bits, stored in a `u32`.
pub struct B21 {
    never: (),
}

impl Specifier for B21 {
    const BITS: usize = 21;

    type UNIT = u32;

    type InOut = u32;

    fn to_bytes(input: u32) -> u32
        returns
            input,
    {
        input
    }

    fn try_from(v: u32) -> u32
        returns
            v,
    {
        v
    }
}

/// A member of 22 bits, stored in a `u32`.
pub struct B22 {
    never: (),
}

impl Specifier for B22 {
    const BITS: usize = 22;

    type UNIT = u32;

    type InOut = u32;

    fn to_bytes(input: u32) -> u32
        returns
            input,
    {
        input
    }

    fn try_from(v: u32) -> u32
        returns
            v,
    {
        v
    }
}

/// A member of 23 bits, stored in a `u32`.
pub struct B23 {
    never: (),
}

impl Specifier for B23 {
    const BITS: usize = 23;

    type UNIT = u32;

    type InOut = u32;

    fn to_bytes(input: u32) -> u32
        returns
            input,
    {
        input
    }

    fn try_from(v: u32) -> u32
        returns
            v,
    {
        v
    }
}

/// A member of 24 bits, stored in a `u32`.
pub struct B24 {
    never: (),
}

impl Specifier for B24 {
    const BITS: usize = 24;

    type UNIT = u32;

    type InOut = u32;

    fn to_bytes(input: u32) -> u32
        returns
            input,
    {
        input
    }

    fn try_from(v: u32) -> u32
        returns
            v,
    {
        v
    }
}

/// A member of 25 bits, stored in a `u32`.
pub struct B25 {
    never: (),
}

impl Specifier for B25 {
    const BITS: usize = 25;

    type UNIT = u32;

    type InOut = u32;

    fn to_bytes(input: u32) -> u32
        returns
            input,
    {
        input
    }

    fn try_from(v: u32) -> u32
        returns
            v,
    {
        v
    }
}

/// A member of 26 bits, stored in a `u32`.
pub struct B26 {
    never: (),
}

impl Specifier for B26 {
    const BITS: usize = 26;

    type UNIT = u32;

    type InOut = u32;

    fn to_bytes(input: u32) -> u32
        returns
            input,
    {
        input
    }

    fn try_from(v: u32) -> u32
        returns
            v,
    {
        v
    }
}

/// A member of 27 bits, stored in a `u32`.
pub struct B27 {
    never: (),
}

impl Specifier for B27 {
    const BITS: usize = 27;

    type UNIT = u32;

    type InOut = u32;

    fn to_bytes(input: u32) -> u32
        returns
            input,
    {
        input
    }

    fn try_from(v: u32) -> u32
        returns
            v,
    {
        v
    }
}

/// A member of 28 bits, stored in a `u32`.
pub struct B28 {
    never: (),
}

impl Specifier for B28 {
    const BITS: usize = 28;

    type UNIT = u32;

    type InOut = u32;

    fn to_bytes(input: u32) -> u32
        returns
            input,
    {
        input
    }

    fn try_from(v: u32) -> u32
        returns
            v,
    {
        v
    }
}

/// A member of 29 bits, stored in a `u32`.
pub struct B29 {
    never: (),
}

impl Specifier for B29 {
    const BITS: usize = 29;

    type UNIT = u32;

    type InOut = u32;

    fn to_bytes(input: u32) -> u32
        returns
            input,
    {
        input
    }

    fn try_from(v: u32) -> u32
        returns
            v,
    {
        v
    }
}

/// A member of 30 bits, stored in a `u32`.
pub struct B30 {
    never: (),
}

impl Specifier for B30 {
    const BITS: usize = 30;

    type UNIT = u32;

    type InOut = u32;

    fn to_bytes(input: u32) -> u32
        returns
            input,
    {
        input
    }

    fn try_from(v: u32) -> u32
        returns
            v,
    {
        v
    }
}

/// A member of 31 bits, stored in a `u32`.
pub struct B31 {
    never: (),
}

impl Specifier for B31 {
    const BITS: usize = 31;

    type UNIT = u32;

    type InOut = u32;

    fn to_bytes(input: u32) -> u32
        returns
            input,
    {
        input
    }

    fn try_from(v: u32) -> u32
        returns
            v,
    {
        v
    }
}

/// A member of 32 bits, stored in a `u32`.
pub struct B32 {
    never: (),
}

impl Specifier for B32 {
    const BITS: usize = 32;

    type UNIT = u32;

    type InOut = u32;

    fn to_bytes(input: u32) -> u32
        returns
            input,
    {
        input
    }

    fn try_from(v: u32) -> u32
        returns
            v,
    {
        v
    }
}

/// A member of 33 bits, stored in a `u64`.
pub struct B33 {
    never: (),
}

impl Specifier for B33 {
    const BITS: usize = 33;

    type UNIT = u64;

    type InOut = u64;

    fn to_bytes(input: u64) -> u64
        returns
            input,
    {
        input
    }

    fn try_from(v: u64) -> u64
        returns
            v,
    {
        v
    }
}

/// A member of 34 bits, stored in a `u64`.
pub struct B34 {
    never: (),
}

impl Specifier for B34 {
    const BITS: usize = 34;

    type UNIT = u64;

    type InOut = u64;

    fn to_bytes(input: u64) -> u64
        returns
            input,
    {
        input
    }

    fn try_from(v: u64) -> u64
        returns
            v,
    {
        v
    }
}

/// A member of 35 bits, stored in a `u64`.
pub struct B35 {
    never: (),
}

impl Specifier for B35 {
    const BITS: usize = 35;

    type UNIT = u64;

    type InOut = u64;

    fn to_bytes(input: u64) -> u64
        returns
            input,
    {
        input
    }

    fn try_from(v: u64) -> u64
        returns
            v,
    {
        v
    }
}

/// A member of 36 bits, stored in a `u64`.
pub struct B36 {
    never: (),
}

impl Specifier for B36 {
    const BITS: usize = 36;

    type UNIT = u64;

    type InOut = u64;

    fn to_bytes(input: u64) -> u64
        returns
            input,
    {
        input
    }

    fn try_from(v: u64) -> u64
        returns
            v,
    {
        v
    }
}

/// A member of 37 bits, stored in a `u64`.
pub struct B37 {
    never: (),
}

impl Specifier for B37 {
    const BITS: usize = 37;

    type UNIT = u64;

    type InOut = u64;

    fn to_bytes(input: u64) -> u64
        returns
            input,
    {
        input
    }

    fn try_from(v: u64) -> u64
        returns
            v,
    {
        v
    }
}

/// A member of 38 bits, stored in a `u64`.
pub struct B38 {
    never: (),
}

impl Specifier for B38 {
    const BITS: usize = 38;

    type UNIT = u64;

    type InOut = u64;

    fn to_bytes(input: u64) -> u64
        returns
            input,
    {
        input
    }

    fn try_from(v: u64) -> u64
        returns
            v,
    {
        v
    }
}

/// A member of 39 bits, stored in a `u64`.
pub struct B39 {
    never: (),
}

impl Specifier for B39 {
    const BITS: usize = 39;

    type UNIT = u64;

    type InOut = u64;

    fn to_bytes(input: u64) -> u64
        returns
            input,
    {
        input
    }

    fn try_from(v: u64) -> u64
        returns
            v,
    {
        v
    }
}

/// A member of 40 bits, stored in a `u64`.
pub struct B40 {
    never: (),
}

impl Specifier for B40 {
    const BITS: usize = 40;

    type UNIT = u64;

    type InOut = u64;

    fn to_bytes(input: u64) -> u64
        returns
            input,
    {
        input
    }

    fn try_from(v: u64) -> u64
        returns
            v,
    {
        v
    }
}

/// A member of 41 bits, stored in a `u64`.
pub struct B41 {
    never: (),
}

impl Specifier for B41 {
    const BITS: usize = 41;

    type UNIT = u64;

    type InOut = u64;

    fn to_bytes(input: u64) -> u64
        returns
            input,
    {
        input
    }

    fn try_from(v: u64) -> u64
        returns
            v,
    {
        v
    }
}

/// A member of 42 bits, stored in a `u64`.
pub struct B42 {
    never: (),
}

impl Specifier for B42 {
    const BITS: usize = 42;

    type UNIT = u64;

    type InOut = u64;

    fn to_bytes(input: u64) -> u64
        returns
            input,
    {
        input
    }

    fn try_from(v: u64) -> u64
        returns
            v,
    {
        v
    }
}

/// A member of 43 bits, stored in a `u64`.
pub struct B43 {
    never: (),
}

impl Specifier for B43 {
    const BITS: usize = 43;

    type UNIT = u64;

    type InOut = u64;

    fn to_bytes(input: u64) -> u64
        returns
            input,
    {
        input
    }

    fn try_from(v: u64) -> u64
        returns
            v,
    {
        v
    }
}

/// A member of 44 bits, stored in a `u64`.
pub struct B44 {
    never: (),
}

impl Specifier for B44 {
    const BITS: usize = 44;

    type UNIT = u64;

    type InOut = u64;

    fn to_bytes(input: u64) -> u64
        returns
            input,
    {
        input
    }

    fn try_from(v: u64) -> u64
        returns
            v,
    {
        v
    }
}

/// A member of 45 bits, stored in a `u64`.
pub struct B45 {
    never: (),
}

impl Specifier for B45 {
    const BITS: usize = 45;

    type UNIT = u64;

    type InOut = u64;

    fn to_bytes(input: u64) -> u64
        returns
            input,
    {
        input
    }

    fn try_from(v: u64) -> u64
        returns
            v,
    {
        v
    }
}

/// A member of 46 bits, stored in a `u64`.
pub struct B46 {
    never: (),
}

impl Specifier for B46 {
    const BITS: usize = 46;

    type UNIT = u64;

    type InOut = u64;

    fn to_bytes(input: u64) -> u64
        returns
            input,
    {
        input
    }

    fn try_from(v: u64) -> u64
        returns
            v,
    {
        v
    }
}

/// A member of 47 bits, stored in a `u64`.
pub struct B47 {
    never: (),
}

impl Specifier for B47 {
    const BITS: usize = 47;

    type UNIT = u64;

    type InOut = u64;

    fn to_bytes(input: u64) -> u64
        returns
            input,
    {
        input
    }

    fn try_from(v: u64) -> u64
        returns
            v,
    {
        v
    }
}

/// A member of 48 bits, stored in a `u64`.
pub struct B48 {
    never: (),
}

impl Specifier for B48 {
    const BITS: usize = 48;

    type UNIT = u64;

    type InOut = u64;

    fn to_bytes(input: u64) -> u64
        returns
            input,
    {
        input
    }

    fn try_from(v: u64) -> u64
        returns
            v,
    {
        v
    }
}

/// A member of 49 bits, stored in a `u64`.
pub struct B49 {
    never: (),
}

impl Specifier for B49 {
    const BITS: usize = 49;

    type UNIT = u64;

    type InOut = u64;

    fn to_bytes(input: u64) -> u64
        returns
            input,
    {
        input
    }

    fn try_from(v: u64) -> u64
        returns
            v,
    {
        v
    }
}

/// A member of 50 bits, stored in a `u64`.
pub struct B50 {
    never: (),
}

impl Specifier for B50 {
    const BITS: usize = 50;

    type UNIT = u64;

    type InOut = u64;

    fn to_bytes(input: u64) -> u64
        returns
            input,
    {
        input
    }

    fn try_from(v: u64) -> u64
        returns
            v,
    {
        v
    }
}

/// A member of 51 bits, stored in a `u64`.
pub struct B51 {
    never: (),
}

impl Specifier for B51 {
    const BITS: usize = 51;

    type UNIT = u64;

    type InOut = u64;

    fn to_bytes(input: u64) -> u64
        returns
            input,
    {
        input
    }

    fn try_from(v: u64) -> u64
        returns
            v,
    {
        v
    }
}

/// A member of 52 bits, stored in a `u64`.
pub struct B52 {
    never: (),
}

impl Specifier for B52 {
    const BITS: usize = 52;

    type UNIT = u64;

    type InOut = u64;

    fn to_bytes(input: u64) -> u64
        returns
            input,
    {
        input
    }

    fn try_from(v: u64) -> u64
        returns
            v,
    {
        v
    }
}

/// A member of 53 bits, stored in a `u64`.
pub struct B53 {
    never: (),
}

impl Specifier for B53 {
    const BITS: usize = 53;

    type UNIT = u64;

    type InOut = u64;

    fn to_bytes(input: u64) -> u64
        returns
            input,
    {
        input
    }

    fn try_from(v: u64) -> u64
        returns
            v,
    {
        v
    }
}

/// A member of 54 bits, stored in a `u64`.
pub struct B54 {
    never: (),
}

impl Specifier for B54 {
    const BITS: usize = 54;

    type UNIT = u64;

    type InOut = u64;

    fn to_bytes(input: u64) -> u64
        returns
            input,
    {
        input
    }

    fn try_from(v: u64) -> u64
        returns
            v,
    {
        v
    }
}

/// A member of 55 bits, stored in a `u64`.
pub struct B55 {
    never: (),
}

impl Specifier for B55 {
    const BITS: usize = 55;

    type UNIT = u64;

    type InOut = u64;

    fn to_bytes(input: u64) -> u64
        returns
            input,
    {
        input
    }

    fn try_from(v: u64) -> u64
        returns
            v,
    {
        v
    }
}

/// A member of 56 bits, stored in a `u64`.
pub struct B56 {
    never: (),
}

impl Specifier for B56 {
    const BITS: usize = 56;

    type UNIT = u64;

    type InOut = u64;

    fn to_bytes(input: u64) -> u64
        returns
            input,
    {
        input
    }

    fn try_from(v: u64) -> u64
        returns
            v,
    {
        v
    }
}

/// A member of 57 bits, stored in a `u64`.
pub struct B57 {
    never: (),
}

impl Specifier for B57 {
    const BITS: usize = 57;

    type UNIT = u64;

    type InOut = u64;

    fn to_bytes(input: u64) -> u64
        returns
            input,
    {
        input
    }

    fn try_from(v: u64) -> u64
        returns
            v,
    {
        v
    }
}

/// A member of 58 bits, stored in a `u64`.
pub struct B58 {
    never: (),
}

impl Specifier for B58 {
    const BITS: usize = 58;

    type UNIT = u64;

    type InOut = u64;

    fn to_bytes(input: u64) -> u64
        returns
            input,
    {
        input
    }

    fn try_from(v: u64) -> u64
        returns
            v,
    {
        v
    }
}

/// A member of 59 bits, stored in a `u64`.
pub struct B59 {
    never: (),
}

impl Specifier for B59 {
    const BITS: usize = 59;

    type UNIT = u64;

    type InOut = u64;

    fn to_bytes(input: u64) -> u64
        returns
            input,
    {
        input
    }

    fn try_from(v: u64) -> u64
        returns
            v,
    {
        v
    }
}

/// A member of 60 bits, stored in a `u64`.
pub struct B60 {
    never: (),
}

impl Specifier for B60 {
    const BITS: usize = 60;

    type UNIT = u64;

    type InOut = u64;

    fn to_bytes(input: u64) -> u64
        returns
            input,
    {
        input
    }

    fn try_from(v: u64) -> u64
        returns
            v,
    {
        v
    }
}

/// A member of 61 bits, stored in a `u64`.
pub struct B61 {
    never: (),
}

impl Specifier for B61 {
    const BITS: usize = 61;

    type UNIT = u64;

    type InOut = u64;

    fn to_bytes(input: u64) -> u64
        returns
            input,
    {
        input
    }

    fn try_from(v: u64) -> u64
        returns
            v,
    {
        v
    }
}

/// A member of 62 bits, stored in a `u64`.
pub struct B62 {
    never: (),
}

impl Specifier for B62 {
    const BITS: usize = 62;

    type UNIT = u64;

    type InOut = u64;

    fn to_bytes(input: u64) -> u64
        returns
            input,
    {
        input
    }

    fn try_from(v: u64) -> u64
        returns
            v,
    {
        v
    }
}

/// A member of 63 bits, stored in a `u64`.
pub struct B63 {
    never: (),
}

impl Specifier for B63 {
    const BITS: usize = 63;

    type UNIT = u64;

    type InOut = u64;

    fn to_bytes(input: u64) -> u64
        returns
            input,
    {
        input
    }

    fn try_from(v: u64) -> u64
        returns
            v,
    {
        v
    }
}

/// A member of 64 bits, stored in a `u64`.
pub struct B64 {
    never: (),
}

impl Specifier for B64 {
    const BITS: usize = 64;

    type UNIT = u64;

    type InOut = u64;

    fn to_bytes(input: u64) -> u64
        returns
            input,
    {
        input
    }

    fn try_from(v: u64) -> u64
        returns
            v,
    {
        v
    }
}

} // verus!
