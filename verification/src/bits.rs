//! Bit access on the primitive integers.
//!
//! Every integer is viewed as the sequence of its bits, least significant
//! first (`bit_view`). The operations of [`BitOpt`] are specified over that view.

use core::ops::Range;
use vstd::prelude::*;

verus! {

broadcast use vstd::layout::layout_of_primitives;

/// The bits `start..end` of `x` moved down to position 0. The positions above
/// the field are filled with zeros for unsigned types and with the top bit of
/// the field (sign extension) for signed types.
pub open spec fn extracted(x: Seq<bool>, start: int, end: int, signed: bool) -> Seq<bool> {
    Seq::new(
        x.len(),
        |i: int|
            if i < end - start {
                x[start + i]
            } else if signed {
                x[end - 1]
            } else {
                false
            },
    )
}

/// `x` with `v` written at `start`: bits below `start` are kept; the field
/// `start..end` holds the low bits of `v`. Above the field, an unsigned value
/// keeps its own bits or-ed with the bits of `v` that did not fit, while a
/// signed value takes the remaining bits of `v`.
pub open spec fn placed(x: Seq<bool>, start: int, end: int, v: Seq<bool>, signed: bool) -> Seq<
    bool,
> {
    Seq::new(
        x.len(),
        |i: int|
            if i < start {
                x[i]
            } else if i < end || signed {
                v[i - start]
            } else {
                x[i] || v[i - start]
            },
    )
}

/// Bit access on integers.
pub trait BitOpt: Sized {
    /// Number of bits of the type.
    spec fn width() -> nat;

    /// Whether the type is a signed (two's complement) integer.
    spec fn is_signed() -> bool;

    /// The bits of the value, least significant first.
    spec fn bit_view(&self) -> Seq<bool>;

    /// The view holds one entry per bit of the type.
    proof fn lemma_bit_view_len(&self)
        ensures
            self.bit_view().len() == Self::width(),
    ;

    /// Bit length of the type.
    fn length() -> (n: usize)
        ensures
            n == Self::width(),
    ;

    /// Value of one bit.
    fn get_bit(&self, bit: usize) -> (r: bool)
        requires
            bit < Self::width(),
        ensures
            r == self.bit_view()[bit as int],
    ;

    /// The bits of `range`, shifted down to position 0.
    fn get_bits(&self, range: Range<usize>) -> (r: Self)
        requires
            range.start < range.end <= Self::width(),
        ensures
            r.bit_view() == extracted(
                self.bit_view(),
                range.start as int,
                range.end as int,
                Self::is_signed(),
            ),
    ;

    /// Sets one bit to `value`.
    fn set_bit(&mut self, bit: usize, value: bool) -> (r: &mut Self)
        requires
            bit < Self::width(),
        ensures
            r.bit_view() == old(self).bit_view().update(bit as int, value),
            *final(self) == *final(r),
    ;

    /// Writes `value` into the bits of `range`.
    fn set_bits(&mut self, range: Range<usize>, value: Self) -> (r: &mut Self)
        requires
            range.start < range.end <= Self::width(),
        ensures
            r.bit_view() == placed(
                old(self).bit_view(),
                range.start as int,
                range.end as int,
                value.bit_view(),
                Self::is_signed(),
            ),
            *final(self) == *final(r),
    ;
}

/// Reading back a bit that was just set gives the value written, and no other
/// bit changes.
pub proof fn law_set_bit_then_get_bit<T: BitOpt>(x: T, bit: int, value: bool)
    requires
        0 <= bit < T::width(),
    ensures
        x.bit_view().update(bit, value)[bit] == value,
        forall|j: int|
            0 <= j < T::width() && j != bit ==> #[trigger] x.bit_view().update(bit, value)[j]
                == x.bit_view()[j],
{
    x.lemma_bit_view_len();
}

/// Reading a field back after writing `v` into it gives the low bits of `v`,
/// that is `v.get_bits(0..len)`, whatever the field held before.
pub proof fn law_set_bits_then_get_bits<T: BitOpt>(x: T, v: T, start: int, end: int)
    requires
        0 <= start < end <= T::width(),
    ensures
        extracted(placed(x.bit_view(), start, end, v.bit_view(), T::is_signed()), start, end, T::is_signed())
            == extracted(v.bit_view(), 0, end - start, T::is_signed()),
{
    x.lemma_bit_view_len();
    v.lemma_bit_view_len();
    assert(extracted(placed(x.bit_view(), start, end, v.bit_view(), T::is_signed()), start, end, T::is_signed())
        =~= extracted(v.bit_view(), 0, end - start, T::is_signed()));
}

/// Writing a field never changes the bits below it; for an unsigned type it
/// also keeps the bits above it when the written value fits in the field.
pub proof fn law_set_bits_keeps_other_bits<T: BitOpt>(x: T, v: T, start: int, end: int)
    requires
        0 <= start < end <= T::width(),
    ensures
        forall|j: int|
            0 <= j < start ==> #[trigger] placed(x.bit_view(), start, end, v.bit_view(), T::is_signed())[j]
                == x.bit_view()[j],
        !T::is_signed() && extracted(v.bit_view(), 0, end - start, false) == v.bit_view() ==> forall|j: int|
            end <= j < T::width() ==> #[trigger] placed(x.bit_view(), start, end, v.bit_view(), false)[j]
                == x.bit_view()[j],
{
    x.lemma_bit_view_len();
    v.lemma_bit_view_len();
    if !T::is_signed() && extracted(v.bit_view(), 0, end - start, false) == v.bit_view() {
        assert forall|j: int| end <= j < T::width() implies #[trigger] placed(x.bit_view(), start, end, v.bit_view(), false)[j]
            == x.bit_view()[j] by {
            assert(v.bit_view()[j - start] == extracted(v.bit_view(), 0, end - start, false)[j - start]);
        }
    }
}

/// The field spanning the whole value is the value itself.
pub proof fn law_get_bits_full_range<T: BitOpt>(x: T)
    requires
        T::width() > 0,
    ensures
        extracted(x.bit_view(), 0, T::width() as int, T::is_signed()) == x.bit_view(),
{
    x.lemma_bit_view_len();
    assert(extracted(x.bit_view(), 0, T::width() as int, T::is_signed()) =~= x.bit_view());
}

/// Bit `i` (counting from the least significant) of `x`.
pub open spec fn u8_bit(x: u8, i: u32) -> bool {
    (x >> i) & 1u8 == 1u8
}

/// The bits of a `u8`, least significant first.
pub open spec fn u8_bits(x: u8) -> Seq<bool> {
    Seq::new(8, |i: int| u8_bit(x, i as u32))
}

proof fn lemma_u8_single(x: u8, b: u32, i: u32)
    by (bit_vector)
    requires
        b < 8u32,
        i < 8u32,
    ensures
        ((x & (1u8 << b)) != 0u8) == u8_bit(x, b),
        u8_bit(x | (1u8 << b), i) == (if i == b { true } else { u8_bit(x, i) }),
        u8_bit(x & !(1u8 << b), i) == (if i == b { false } else { u8_bit(x, i) }),
{
}

proof fn lemma_u8_extract(x: u8, s: u32, e: u32, i: u32)
    by (bit_vector)
    requires
        s < e <= 8u32,
        i < 8u32,
    ensures
        u8_bit((x << ((8u32 - e) as u32)) >> ((8u32 - e) as u32) >> s, i) == (if i < e - s {
            u8_bit(x, (s + i) as u32)
        } else {
            false
        }),
{
}

proof fn lemma_u8_place(x: u8, v: u8, s: u32, e: u32, i: u32)
    by (bit_vector)
    requires
        s < e <= 8u32,
        i < 8u32,
    ensures
        u8_bit(
            (x & !((!0u8) << ((8u32 - e) as u32) >> ((8u32 - e) as u32) >> s << s)) | (v << s),
            i,
        ) == (if i < s {
            u8_bit(x, i)
        } else if i < e {
            u8_bit(v, (i - s) as u32)
        } else {
            u8_bit(x, i) || u8_bit(v, (i - s) as u32)
        }),
{
}

impl BitOpt for u8 {
    open spec fn width() -> nat {
        8
    }

    open spec fn is_signed() -> bool {
        false
    }

    open spec fn bit_view(&self) -> Seq<bool> {
        u8_bits(*self)
    }

    proof fn lemma_bit_view_len(&self) {
    }

    fn length() -> (n: usize) {
        core::mem::size_of::<Self>() * 8
    }

    fn get_bit(&self, bit: usize) -> (r: bool) {
        let b = bit as u32;
        proof {
            lemma_u8_single(*self, b, 0);
        }
        (*self & (1u8 << b)) != 0
    }

    fn get_bits(&self, range: Range<usize>) -> (r: Self) {
        let shift_bits = (Self::length() - range.end) as u32;
        let bits = *self << shift_bits >> shift_bits;
        let r = bits >> (range.start as u32);
        proof {
            let s = range.start as u32;
            let e = range.end as u32;
            let target = extracted(self.bit_view(), range.start as int, range.end as int, false);
            assert forall|i: int| 0 <= i < 8 implies #[trigger] r.bit_view()[i] == target[i] by {
                lemma_u8_extract(*self, s, e, i as u32);
            }
            assert(r.bit_view() =~= target);
        }
        r
    }

    fn set_bit(&mut self, bit: usize, value: bool) -> (r: &mut Self) {
        let ghost before = *self;
        let b = bit as u32;
        let mask = 1u8 << b;
        if value {
            *self = *self | mask;
        } else {
            *self = *self & !mask;
        }
        proof {
            let target = before.bit_view().update(bit as int, value);
            assert forall|i: int| 0 <= i < 8 implies #[trigger] self.bit_view()[i] == target[i] by {
                lemma_u8_single(before, b, i as u32);
            }
            assert(self.bit_view() =~= target);
        }
        self
    }

    fn set_bits(&mut self, range: Range<usize>, value: Self) -> (r: &mut Self) {
        let ghost before = *self;
        let shift_bits = (Self::length() - range.end) as u32;
        let s = range.start as u32;
        let mask = (!0u8) << shift_bits >> shift_bits >> s << s;
        *self = (*self & !mask) | (value << s);
        proof {
            let e = range.end as u32;
            let target = placed(
                before.bit_view(),
                range.start as int,
                range.end as int,
                value.bit_view(),
                false,
            );
            assert forall|i: int| 0 <= i < 8 implies #[trigger] self.bit_view()[i] == target[i] by {
                lemma_u8_place(before, value, s, e, i as u32);
            }
            assert(self.bit_view() =~= target);
        }
        self
    }
}

/// Bit `i` (counting from the least significant) of `x`.
pub open spec fn u16_bit(x: u16, i: u32) -> bool {
    (x >> i) & 1u16 == 1u16
}

/// The bits of a `u16`, least significant first.
pub open spec fn u16_bits(x: u16) -> Seq<bool> {
    Seq::new(16, |i: int| u16_bit(x, i as u32))
}

proof fn lemma_u16_single(x: u16, b: u32, i: u32)
    by (bit_vector)
    requires
        b < 16u32,
        i < 16u32,
    ensures
        ((x & (1u16 << b)) != 0u16) == u16_bit(x, b),
        u16_bit(x | (1u16 << b), i) == (if i == b { true } else { u16_bit(x, i) }),
        u16_bit(x & !(1u16 << b), i) == (if i == b { false } else { u16_bit(x, i) }),
{
}

proof fn lemma_u16_extract(x: u16, s: u32, e: u32, i: u32)
    by (bit_vector)
    requires
        s < e <= 16u32,
        i < 16u32,
    ensures
        u16_bit((x << ((16u32 - e) as u32)) >> ((16u32 - e) as u32) >> s, i) == (if i < e - s {
            u16_bit(x, (s + i) as u32)
        } else {
            false
        }),
{
}

proof fn lemma_u16_place(x: u16, v: u16, s: u32, e: u32, i: u32)
    by (bit_vector)
    requires
        s < e <= 16u32,
        i < 16u32,
    ensures
        u16_bit(
            (x & !((!0u16) << ((16u32 - e) as u32) >> ((16u32 - e) as u32) >> s << s)) | (v << s),
            i,
        ) == (if i < s {
            u16_bit(x, i)
        } else if i < e {
            u16_bit(v, (i - s) as u32)
        } else {
            u16_bit(x, i) || u16_bit(v, (i - s) as u32)
        }),
{
}

impl BitOpt for u16 {
    open spec fn width() -> nat {
        16
    }

    open spec fn is_signed() -> bool {
        false
    }

    open spec fn bit_view(&self) -> Seq<bool> {
        u16_bits(*self)
    }

    proof fn lemma_bit_view_len(&self) {
    }

    fn length() -> (n: usize) {
        core::mem::size_of::<Self>() * 8
    }

    fn get_bit(&self, bit: usize) -> (r: bool) {
        let b = bit as u32;
        proof {
            lemma_u16_single(*self, b, 0);
        }
        (*self & (1u16 << b)) != 0
    }

    fn get_bits(&self, range: Range<usize>) -> (r: Self) {
        let shift_bits = (Self::length() - range.end) as u32;
        let bits = *self << shift_bits >> shift_bits;
        let r = bits >> (range.start as u32);
        proof {
            let s = range.start as u32;
            let e = range.end as u32;
            let target = extracted(self.bit_view(), range.start as int, range.end as int, false);
            assert forall|i: int| 0 <= i < 16 implies #[trigger] r.bit_view()[i] == target[i] by {
                lemma_u16_extract(*self, s, e, i as u32);
            }
            assert(r.bit_view() =~= target);
        }
        r
    }

    fn set_bit(&mut self, bit: usize, value: bool) -> (r: &mut Self) {
        let ghost before = *self;
        let b = bit as u32;
        let mask = 1u16 << b;
        if value {
            *self = *self | mask;
        } else {
            *self = *self & !mask;
        }
        proof {
            let target = before.bit_view().update(bit as int, value);
            assert forall|i: int| 0 <= i < 16 implies #[trigger] self.bit_view()[i] == target[i] by {
                lemma_u16_single(before, b, i as u32);
            }
            assert(self.bit_view() =~= target);
        }
        self
    }

    fn set_bits(&mut self, range: Range<usize>, value: Self) -> (r: &mut Self) {
        let ghost before = *self;
        let shift_bits = (Self::length() - range.end) as u32;
        let s = range.start as u32;
        let mask = (!0u16) << shift_bits >> shift_bits >> s << s;
        *self = (*self & !mask) | (value << s);
        proof {
            let e = range.end as u32;
            let target = placed(
                before.bit_view(),
                range.start as int,
                range.end as int,
                value.bit_view(),
                false,
            );
            assert forall|i: int| 0 <= i < 16 implies #[trigger] self.bit_view()[i] == target[i] by {
                lemma_u16_place(before, value, s, e, i as u32);
            }
            assert(self.bit_view() =~= target);
        }
        self
    }
}

/// Bit `i` (counting from the least significant) of `x`.
pub open spec fn u32_bit(x: u32, i: u32) -> bool {
    (x >> i) & 1u32 == 1u32
}

/// The bits of a `u32`, least significant first.
pub open spec fn u32_bits(x: u32) -> Seq<bool> {
    Seq::new(32, |i: int| u32_bit(x, i as u32))
}

proof fn lemma_u32_single(x: u32, b: u32, i: u32)
    by (bit_vector)
    requires
        b < 32u32,
        i < 32u32,
    ensures
        ((x & (1u32 << b)) != 0u32) == u32_bit(x, b),
        u32_bit(x | (1u32 << b), i) == (if i == b { true } else { u32_bit(x, i) }),
        u32_bit(x & !(1u32 << b), i) == (if i == b { false } else { u32_bit(x, i) }),
{
}

proof fn lemma_u32_extract(x: u32, s: u32, e: u32, i: u32)
    by (bit_vector)
    requires
        s < e <= 32u32,
        i < 32u32,
    ensures
        u32_bit((x << ((32u32 - e) as u32)) >> ((32u32 - e) as u32) >> s, i) == (if i < e - s {
            u32_bit(x, (s + i) as u32)
        } else {
            false
        }),
{
}

proof fn lemma_u32_place(x: u32, v: u32, s: u32, e: u32, i: u32)
    by (bit_vector)
    requires
        s < e <= 32u32,
        i < 32u32,
    ensures
        u32_bit(
            (x & !((!0u32) << ((32u32 - e) as u32) >> ((32u32 - e) as u32) >> s << s)) | (v << s),
            i,
        ) == (if i < s {
            u32_bit(x, i)
        } else if i < e {
            u32_bit(v, (i - s) as u32)
        } else {
            u32_bit(x, i) || u32_bit(v, (i - s) as u32)
        }),
{
}

impl BitOpt for u32 {
    open spec fn width() -> nat {
        32
    }

    open spec fn is_signed() -> bool {
        false
    }

    open spec fn bit_view(&self) -> Seq<bool> {
        u32_bits(*self)
    }

    proof fn lemma_bit_view_len(&self) {
    }

    fn length() -> (n: usize) {
        core::mem::size_of::<Self>() * 8
    }

    fn get_bit(&self, bit: usize) -> (r: bool) {
        let b = bit as u32;
        proof {
            lemma_u32_single(*self, b, 0);
        }
        (*self & (1u32 << b)) != 0
    }

    fn get_bits(&self, range: Range<usize>) -> (r: Self) {
        let shift_bits = (Self::length() - range.end) as u32;
        let bits = *self << shift_bits >> shift_bits;
        let r = bits >> (range.start as u32);
        proof {
            let s = range.start as u32;
            let e = range.end as u32;
            let target = extracted(self.bit_view(), range.start as int, range.end as int, false);
            assert forall|i: int| 0 <= i < 32 implies #[trigger] r.bit_view()[i] == target[i] by {
                lemma_u32_extract(*self, s, e, i as u32);
            }
            assert(r.bit_view() =~= target);
        }
        r
    }

    fn set_bit(&mut self, bit: usize, value: bool) -> (r: &mut Self) {
        let ghost before = *self;
        let b = bit as u32;
        let mask = 1u32 << b;
        if value {
            *self = *self | mask;
        } else {
            *self = *self & !mask;
        }
        proof {
            let target = before.bit_view().update(bit as int, value);
            assert forall|i: int| 0 <= i < 32 implies #[trigger] self.bit_view()[i] == target[i] by {
                lemma_u32_single(before, b, i as u32);
            }
            assert(self.bit_view() =~= target);
        }
        self
    }

    fn set_bits(&mut self, range: Range<usize>, value: Self) -> (r: &mut Self) {
        let ghost before = *self;
        let shift_bits = (Self::length() - range.end) as u32;
        let s = range.start as u32;
        let mask = (!0u32) << shift_bits >> shift_bits >> s << s;
        *self = (*self & !mask) | (value << s);
        proof {
            let e = range.end as u32;
            let target = placed(
                before.bit_view(),
                range.start as int,
                range.end as int,
                value.bit_view(),
                false,
            );
            assert forall|i: int| 0 <= i < 32 implies #[trigger] self.bit_view()[i] == target[i] by {
                lemma_u32_place(before, value, s, e, i as u32);
            }
            assert(self.bit_view() =~= target);
        }
        self
    }
}

/// Bit `i` (counting from the least significant) of `x`.
pub open spec fn u64_bit(x: u64, i: u32) -> bool {
    (x >> i) & 1u64 == 1u64
}

/// The bits of a `u64`, least significant first.
pub open spec fn u64_bits(x: u64) -> Seq<bool> {
    Seq::new(64, |i: int| u64_bit(x, i as u32))
}

proof fn lemma_u64_single(x: u64, b: u32, i: u32)
    by (bit_vector)
    requires
        b < 64u32,
        i < 64u32,
    ensures
        ((x & (1u64 << b)) != 0u64) == u64_bit(x, b),
        u64_bit(x | (1u64 << b), i) == (if i == b { true } else { u64_bit(x, i) }),
        u64_bit(x & !(1u64 << b), i) == (if i == b { false } else { u64_bit(x, i) }),
{
}

#[verifier::rlimit(100)]
proof fn lemma_u64_extract(x: u64, s: u32, e: u32, i: u32)
    by (bit_vector)
    requires
        s < e <= 64u32,
        i < 64u32,
    ensures
        u64_bit((x << ((64u32 - e) as u32)) >> ((64u32 - e) as u32) >> s, i) == (if i < e - s {
            u64_bit(x, (s + i) as u32)
        } else {
            false
        }),
{
}

#[verifier::rlimit(100)]
proof fn lemma_u64_place(x: u64, v: u64, s: u32, e: u32, i: u32)
    by (bit_vector)
    requires
        s < e <= 64u32,
        i < 64u32,
    ensures
        u64_bit(
            (x & !((!0u64) << ((64u32 - e) as u32) >> ((64u32 - e) as u32) >> s << s)) | (v << s),
            i,
        ) == (if i < s {
            u64_bit(x, i)
        } else if i < e {
            u64_bit(v, (i - s) as u32)
        } else {
            u64_bit(x, i) || u64_bit(v, (i - s) as u32)
        }),
{
}

impl BitOpt for u64 {
    open spec fn width() -> nat {
        64
    }

    open spec fn is_signed() -> bool {
        false
    }

    open spec fn bit_view(&self) -> Seq<bool> {
        u64_bits(*self)
    }

    proof fn lemma_bit_view_len(&self) {
    }

    fn length() -> (n: usize) {
        core::mem::size_of::<Self>() * 8
    }

    fn get_bit(&self, bit: usize) -> (r: bool) {
        let b = bit as u32;
        proof {
            lemma_u64_single(*self, b, 0);
        }
        (*self & (1u64 << b)) != 0
    }

    fn get_bits(&self, range: Range<usize>) -> (r: Self) {
        let shift_bits = (Self::length() - range.end) as u32;
        let bits = *self << shift_bits >> shift_bits;
        let r = bits >> (range.start as u32);
        proof {
            let s = range.start as u32;
            let e = range.end as u32;
            let target = extracted(self.bit_view(), range.start as int, range.end as int, false);
            assert forall|i: int| 0 <= i < 64 implies #[trigger] r.bit_view()[i] == target[i] by {
                lemma_u64_extract(*self, s, e, i as u32);
            }
            assert(r.bit_view() =~= target);
        }
        r
    }

    fn set_bit(&mut self, bit: usize, value: bool) -> (r: &mut Self) {
        let ghost before = *self;
        let b = bit as u32;
        let mask = 1u64 << b;
        if value {
            *self = *self | mask;
        } else {
            *self = *self & !mask;
        }
        proof {
            let target = before.bit_view().update(bit as int, value);
            assert forall|i: int| 0 <= i < 64 implies #[trigger] self.bit_view()[i] == target[i] by {
                lemma_u64_single(before, b, i as u32);
            }
            assert(self.bit_view() =~= target);
        }
        self
    }

    fn set_bits(&mut self, range: Range<usize>, value: Self) -> (r: &mut Self) {
        let ghost before = *self;
        let shift_bits = (Self::length() - range.end) as u32;
        let s = range.start as u32;
        let mask = (!0u64) << shift_bits >> shift_bits >> s << s;
        *self = (*self & !mask) | (value << s);
        proof {
            let e = range.end as u32;
            let target = placed(
                before.bit_view(),
                range.start as int,
                range.end as int,
                value.bit_view(),
                false,
            );
            assert forall|i: int| 0 <= i < 64 implies #[trigger] self.bit_view()[i] == target[i] by {
                lemma_u64_place(before, value, s, e, i as u32);
            }
            assert(self.bit_view() =~= target);
        }
        self
    }
}

/// Bit `i` (counting from the least significant) of `x`.
pub open spec fn usize_bit(x: usize, i: u32) -> bool {
    (x >> i) & 1usize == 1usize
}

/// The bits of a `usize`, least significant first.
pub open spec fn usize_bits(x: usize) -> Seq<bool> {
    Seq::new(usize::BITS as nat, |i: int| usize_bit(x, i as u32))
}

proof fn lemma_usize_single(x: usize, b: u32, i: u32)
    by (bit_vector)
    requires
        b < usize::BITS,
        i < usize::BITS,
    ensures
        ((x & (1usize << b)) != 0usize) == usize_bit(x, b),
        usize_bit(x | (1usize << b), i) == (if i == b { true } else { usize_bit(x, i) }),
        usize_bit(x & !(1usize << b), i) == (if i == b { false } else { usize_bit(x, i) }),
{
}

#[verifier::rlimit(100)]
proof fn lemma_usize_extract(x: usize, s: u32, e: u32, i: u32)
    by (bit_vector)
    requires
        s < e <= usize::BITS,
        i < usize::BITS,
    ensures
        usize_bit((x << ((usize::BITS - e) as u32)) >> ((usize::BITS - e) as u32) >> s, i) == (if i < e - s {
            usize_bit(x, (s + i) as u32)
        } else {
            false
        }),
{
}

#[verifier::rlimit(100)]
proof fn lemma_usize_place(x: usize, v: usize, s: u32, e: u32, i: u32)
    by (bit_vector)
    requires
        s < e <= usize::BITS,
        i < usize::BITS,
    ensures
        usize_bit(
            (x & !((!0usize) << ((usize::BITS - e) as u32) >> ((usize::BITS - e) as u32) >> s << s)) | (v << s),
            i,
        ) == (if i < s {
            usize_bit(x, i)
        } else if i < e {
            usize_bit(v, (i - s) as u32)
        } else {
            usize_bit(x, i) || usize_bit(v, (i - s) as u32)
        }),
{
}

impl BitOpt for usize {
    open spec fn width() -> nat {
        usize::BITS as nat
    }

    open spec fn is_signed() -> bool {
        false
    }

    open spec fn bit_view(&self) -> Seq<bool> {
        usize_bits(*self)
    }

    proof fn lemma_bit_view_len(&self) {
    }

    fn length() -> (n: usize) {
        core::mem::size_of::<Self>() * 8
    }

    fn get_bit(&self, bit: usize) -> (r: bool) {
        let b = bit as u32;
        proof {
            lemma_usize_single(*self, b, 0);
        }
        (*self & (1usize << b)) != 0
    }

    fn get_bits(&self, range: Range<usize>) -> (r: Self) {
        let shift_bits = (Self::length() - range.end) as u32;
        let bits = *self << shift_bits >> shift_bits;
        let r = bits >> (range.start as u32);
        proof {
            let s = range.start as u32;
            let e = range.end as u32;
            let target = extracted(self.bit_view(), range.start as int, range.end as int, false);
            assert forall|i: int| 0 <= i < usize::BITS implies #[trigger] r.bit_view()[i] == target[i] by {
                lemma_usize_extract(*self, s, e, i as u32);
            }
            assert(r.bit_view() =~= target);
        }
        r
    }

    fn set_bit(&mut self, bit: usize, value: bool) -> (r: &mut Self) {
        let ghost before = *self;
        let b = bit as u32;
        let mask = 1usize << b;
        if value {
            *self = *self | mask;
        } else {
            *self = *self & !mask;
        }
        proof {
            let target = before.bit_view().update(bit as int, value);
            assert forall|i: int| 0 <= i < usize::BITS implies #[trigger] self.bit_view()[i] == target[i] by {
                lemma_usize_single(before, b, i as u32);
            }
            assert(self.bit_view() =~= target);
        }
        self
    }

    fn set_bits(&mut self, range: Range<usize>, value: Self) -> (r: &mut Self) {
        let ghost before = *self;
        let shift_bits = (Self::length() - range.end) as u32;
        let s = range.start as u32;
        let mask = (!0usize) << shift_bits >> shift_bits >> s << s;
        *self = (*self & !mask) | (value << s);
        proof {
            let e = range.end as u32;
            let target = placed(
                before.bit_view(),
                range.start as int,
                range.end as int,
                value.bit_view(),
                false,
            );
            assert forall|i: int| 0 <= i < usize::BITS implies #[trigger] self.bit_view()[i] == target[i] by {
                lemma_usize_place(before, value, s, e, i as u32);
            }
            assert(self.bit_view() =~= target);
        }
        self
    }
}

/// Bit `i` (counting from the least significant) of `x`.
pub open spec fn i8_bit(x: i8, i: u32) -> bool {
    (x >> i) & 1i8 == 1i8
}

/// The bits of a `i8`, least significant first.
pub open spec fn i8_bits(x: i8) -> Seq<bool> {
    Seq::new(8, |i: int| i8_bit(x, i as u32))
}

proof fn lemma_i8_single(x: i8, b: u32, i: u32)
    by (bit_vector)
    requires
        b < 8u32,
        i < 8u32,
    ensures
        ((x & (1i8 << b)) != 0i8) == i8_bit(x, b),
        i8_bit(x | (1i8 << b), i) == (if i == b { true } else { i8_bit(x, i) }),
        i8_bit(x & !(1i8 << b), i) == (if i == b { false } else { i8_bit(x, i) }),
{
}

proof fn lemma_i8_extract(x: i8, s: u32, e: u32, i: u32)
    by (bit_vector)
    requires
        s < e <= 8u32,
        i < 8u32,
    ensures
        i8_bit((x << ((8u32 - e) as u32)) >> ((8u32 - e) as u32) >> s, i) == (if i < e - s {
            i8_bit(x, (s + i) as u32)
        } else {
            i8_bit(x, (e - 1) as u32)
        }),
{
}

proof fn lemma_i8_place(x: i8, v: i8, s: u32, e: u32, i: u32)
    by (bit_vector)
    requires
        s < e <= 8u32,
        i < 8u32,
    ensures
        i8_bit(
            (x & !((!0i8) << ((8u32 - e) as u32) >> ((8u32 - e) as u32) >> s << s)) | (v << s),
            i,
        ) == (if i < s {
            i8_bit(x, i)
        } else {
            i8_bit(v, (i - s) as u32)
        }),
{
}

impl BitOpt for i8 {
    open spec fn width() -> nat {
        8
    }

    open spec fn is_signed() -> bool {
        true
    }

    open spec fn bit_view(&self) -> Seq<bool> {
        i8_bits(*self)
    }

    proof fn lemma_bit_view_len(&self) {
    }

    fn length() -> (n: usize) {
        core::mem::size_of::<Self>() * 8
    }

    fn get_bit(&self, bit: usize) -> (r: bool) {
        let b = bit as u32;
        proof {
            lemma_i8_single(*self, b, 0);
        }
        (*self & (1i8 << b)) != 0
    }

    fn get_bits(&self, range: Range<usize>) -> (r: Self) {
        let shift_bits = (Self::length() - range.end) as u32;
        let bits = *self << shift_bits >> shift_bits;
        let r = bits >> (range.start as u32);
        proof {
            let s = range.start as u32;
            let e = range.end as u32;
            let target = extracted(self.bit_view(), range.start as int, range.end as int, true);
            assert forall|i: int| 0 <= i < 8 implies #[trigger] r.bit_view()[i] == target[i] by {
                lemma_i8_extract(*self, s, e, i as u32);
            }
            assert(r.bit_view() =~= target);
        }
        r
    }

    fn set_bit(&mut self, bit: usize, value: bool) -> (r: &mut Self) {
        let ghost before = *self;
        let b = bit as u32;
        let mask = 1i8 << b;
        if value {
            *self = *self | mask;
        } else {
            *self = *self & !mask;
        }
        proof {
            let target = before.bit_view().update(bit as int, value);
            assert forall|i: int| 0 <= i < 8 implies #[trigger] self.bit_view()[i] == target[i] by {
                lemma_i8_single(before, b, i as u32);
            }
            assert(self.bit_view() =~= target);
        }
        self
    }

    fn set_bits(&mut self, range: Range<usize>, value: Self) -> (r: &mut Self) {
        let ghost before = *self;
        let shift_bits = (Self::length() - range.end) as u32;
        let s = range.start as u32;
        let mask = (!0i8) << shift_bits >> shift_bits >> s << s;
        *self = (*self & !mask) | (value << s);
        proof {
            let e = range.end as u32;
            let target = placed(
                before.bit_view(),
                range.start as int,
                range.end as int,
                value.bit_view(),
                true,
            );
            assert forall|i: int| 0 <= i < 8 implies #[trigger] self.bit_view()[i] == target[i] by {
                lemma_i8_place(before, value, s, e, i as u32);
            }
            assert(self.bit_view() =~= target);
        }
        self
    }
}

/// Bit `i` (counting from the least significant) of `x`.
pub open spec fn i16_bit(x: i16, i: u32) -> bool {
    (x >> i) & 1i16 == 1i16
}

/// The bits of a `i16`, least significant first.
pub open spec fn i16_bits(x: i16) -> Seq<bool> {
    Seq::new(16, |i: int| i16_bit(x, i as u32))
}

proof fn lemma_i16_single(x: i16, b: u32, i: u32)
    by (bit_vector)
    requires
        b < 16u32,
        i < 16u32,
    ensures
        ((x & (1i16 << b)) != 0i16) == i16_bit(x, b),
        i16_bit(x | (1i16 << b), i) == (if i == b { true } else { i16_bit(x, i) }),
        i16_bit(x & !(1i16 << b), i) == (if i == b { false } else { i16_bit(x, i) }),
{
}

proof fn lemma_i16_extract(x: i16, s: u32, e: u32, i: u32)
    by (bit_vector)
    requires
        s < e <= 16u32,
        i < 16u32,
    ensures
        i16_bit((x << ((16u32 - e) as u32)) >> ((16u32 - e) as u32) >> s, i) == (if i < e - s {
            i16_bit(x, (s + i) as u32)
        } else {
            i16_bit(x, (e - 1) as u32)
        }),
{
}

proof fn lemma_i16_place(x: i16, v: i16, s: u32, e: u32, i: u32)
    by (bit_vector)
    requires
        s < e <= 16u32,
        i < 16u32,
    ensures
        i16_bit(
            (x & !((!0i16) << ((16u32 - e) as u32) >> ((16u32 - e) as u32) >> s << s)) | (v << s),
            i,
        ) == (if i < s {
            i16_bit(x, i)
        } else {
            i16_bit(v, (i - s) as u32)
        }),
{
}

impl BitOpt for i16 {
    open spec fn width() -> nat {
        16
    }

    open spec fn is_signed() -> bool {
        true
    }

    open spec fn bit_view(&self) -> Seq<bool> {
        i16_bits(*self)
    }

    proof fn lemma_bit_view_len(&self) {
    }

    fn length() -> (n: usize) {
        core::mem::size_of::<Self>() * 8
    }

    fn get_bit(&self, bit: usize) -> (r: bool) {
        let b = bit as u32;
        proof {
            lemma_i16_single(*self, b, 0);
        }
        (*self & (1i16 << b)) != 0
    }

    fn get_bits(&self, range: Range<usize>) -> (r: Self) {
        let shift_bits = (Self::length() - range.end) as u32;
        let bits = *self << shift_bits >> shift_bits;
        let r = bits >> (range.start as u32);
        proof {
            let s = range.start as u32;
            let e = range.end as u32;
            let target = extracted(self.bit_view(), range.start as int, range.end as int, true);
            assert forall|i: int| 0 <= i < 16 implies #[trigger] r.bit_view()[i] == target[i] by {
                lemma_i16_extract(*self, s, e, i as u32);
            }
            assert(r.bit_view() =~= target);
        }
        r
    }

    fn set_bit(&mut self, bit: usize, value: bool) -> (r: &mut Self) {
        let ghost before = *self;
        let b = bit as u32;
        let mask = 1i16 << b;
        if value {
            *self = *self | mask;
        } else {
            *self = *self & !mask;
        }
        proof {
            let target = before.bit_view().update(bit as int, value);
            assert forall|i: int| 0 <= i < 16 implies #[trigger] self.bit_view()[i] == target[i] by {
                lemma_i16_single(before, b, i as u32);
            }
            assert(self.bit_view() =~= target);
        }
        self
    }

    fn set_bits(&mut self, range: Range<usize>, value: Self) -> (r: &mut Self) {
        let ghost before = *self;
        let shift_bits = (Self::length() - range.end) as u32;
        let s = range.start as u32;
        let mask = (!0i16) << shift_bits >> shift_bits >> s << s;
        *self = (*self & !mask) | (value << s);
        proof {
            let e = range.end as u32;
            let target = placed(
                before.bit_view(),
                range.start as int,
                range.end as int,
                value.bit_view(),
                true,
            );
            assert forall|i: int| 0 <= i < 16 implies #[trigger] self.bit_view()[i] == target[i] by {
                lemma_i16_place(before, value, s, e, i as u32);
            }
            assert(self.bit_view() =~= target);
        }
        self
    }
}

/// Bit `i` (counting from the least significant) of `x`.
pub open spec fn i32_bit(x: i32, i: u32) -> bool {
    (x >> i) & 1i32 == 1i32
}

/// The bits of a `i32`, least significant first.
pub open spec fn i32_bits(x: i32) -> Seq<bool> {
    Seq::new(32, |i: int| i32_bit(x, i as u32))
}

proof fn lemma_i32_single(x: i32, b: u32, i: u32)
    by (bit_vector)
    requires
        b < 32u32,
        i < 32u32,
    ensures
        ((x & (1i32 << b)) != 0i32) == i32_bit(x, b),
        i32_bit(x | (1i32 << b), i) == (if i == b { true } else { i32_bit(x, i) }),
        i32_bit(x & !(1i32 << b), i) == (if i == b { false } else { i32_bit(x, i) }),
{
}

proof fn lemma_i32_extract(x: i32, s: u32, e: u32, i: u32)
    by (bit_vector)
    requires
        s < e <= 32u32,
        i < 32u32,
    ensures
        i32_bit((x << ((32u32 - e) as u32)) >> ((32u32 - e) as u32) >> s, i) == (if i < e - s {
            i32_bit(x, (s + i) as u32)
        } else {
            i32_bit(x, (e - 1) as u32)
        }),
{
}

proof fn lemma_i32_place(x: i32, v: i32, s: u32, e: u32, i: u32)
    by (bit_vector)
    requires
        s < e <= 32u32,
        i < 32u32,
    ensures
        i32_bit(
            (x & !((!0i32) << ((32u32 - e) as u32) >> ((32u32 - e) as u32) >> s << s)) | (v << s),
            i,
        ) == (if i < s {
            i32_bit(x, i)
        } else {
            i32_bit(v, (i - s) as u32)
        }),
{
}

impl BitOpt for i32 {
    open spec fn width() -> nat {
        32
    }

    open spec fn is_signed() -> bool {
        true
    }

    open spec fn bit_view(&self) -> Seq<bool> {
        i32_bits(*self)
    }

    proof fn lemma_bit_view_len(&self) {
    }

    fn length() -> (n: usize) {
        core::mem::size_of::<Self>() * 8
    }

    fn get_bit(&self, bit: usize) -> (r: bool) {
        let b = bit as u32;
        proof {
            lemma_i32_single(*self, b, 0);
        }
        (*self & (1i32 << b)) != 0
    }

    fn get_bits(&self, range: Range<usize>) -> (r: Self) {
        let shift_bits = (Self::length() - range.end) as u32;
        let bits = *self << shift_bits >> shift_bits;
        let r = bits >> (range.start as u32);
        proof {
            let s = range.start as u32;
            let e = range.end as u32;
            let target = extracted(self.bit_view(), range.start as int, range.end as int, true);
            assert forall|i: int| 0 <= i < 32 implies #[trigger] r.bit_view()[i] == target[i] by {
                lemma_i32_extract(*self, s, e, i as u32);
            }
            assert(r.bit_view() =~= target);
        }
        r
    }

    fn set_bit(&mut self, bit: usize, value: bool) -> (r: &mut Self) {
        let ghost before = *self;
        let b = bit as u32;
        let mask = 1i32 << b;
        if value {
            *self = *self | mask;
        } else {
            *self = *self & !mask;
        }
        proof {
            let target = before.bit_view().update(bit as int, value);
            assert forall|i: int| 0 <= i < 32 implies #[trigger] self.bit_view()[i] == target[i] by {
                lemma_i32_single(before, b, i as u32);
            }
            assert(self.bit_view() =~= target);
        }
        self
    }

    fn set_bits(&mut self, range: Range<usize>, value: Self) -> (r: &mut Self) {
        let ghost before = *self;
        let shift_bits = (Self::length() - range.end) as u32;
        let s = range.start as u32;
        let mask = (!0i32) << shift_bits >> shift_bits >> s << s;
        *self = (*self & !mask) | (value << s);
        proof {
            let e = range.end as u32;
            let target = placed(
                before.bit_view(),
                range.start as int,
                range.end as int,
                value.bit_view(),
                true,
            );
            assert forall|i: int| 0 <= i < 32 implies #[trigger] self.bit_view()[i] == target[i] by {
                lemma_i32_place(before, value, s, e, i as u32);
            }
            assert(self.bit_view() =~= target);
        }
        self
    }
}

/// Bit `i` (counting from the least significant) of `x`.
pub open spec fn i64_bit(x: i64, i: u32) -> bool {
    (x >> i) & 1i64 == 1i64
}

/// The bits of a `i64`, least significant first.
pub open spec fn i64_bits(x: i64) -> Seq<bool> {
    Seq::new(64, |i: int| i64_bit(x, i as u32))
}

proof fn lemma_i64_single(x: i64, b: u32, i: u32)
    by (bit_vector)
    requires
        b < 64u32,
        i < 64u32,
    ensures
        ((x & (1i64 << b)) != 0i64) == i64_bit(x, b),
        i64_bit(x | (1i64 << b), i) == (if i == b { true } else { i64_bit(x, i) }),
        i64_bit(x & !(1i64 << b), i) == (if i == b { false } else { i64_bit(x, i) }),
{
}

#[verifier::rlimit(100)]
proof fn lemma_i64_extract(x: i64, s: u32, e: u32, i: u32)
    by (bit_vector)
    requires
        s < e <= 64u32,
        i < 64u32,
    ensures
        i64_bit((x << ((64u32 - e) as u32)) >> ((64u32 - e) as u32) >> s, i) == (if i < e - s {
            i64_bit(x, (s + i) as u32)
        } else {
            i64_bit(x, (e - 1) as u32)
        }),
{
}

#[verifier::rlimit(100)]
proof fn lemma_i64_place(x: i64, v: i64, s: u32, e: u32, i: u32)
    by (bit_vector)
    requires
        s < e <= 64u32,
        i < 64u32,
    ensures
        i64_bit(
            (x & !((!0i64) << ((64u32 - e) as u32) >> ((64u32 - e) as u32) >> s << s)) | (v << s),
            i,
        ) == (if i < s {
            i64_bit(x, i)
        } else {
            i64_bit(v, (i - s) as u32)
        }),
{
}

impl BitOpt for i64 {
    open spec fn width() -> nat {
        64
    }

    open spec fn is_signed() -> bool {
        true
    }

    open spec fn bit_view(&self) -> Seq<bool> {
        i64_bits(*self)
    }

    proof fn lemma_bit_view_len(&self) {
    }

    fn length() -> (n: usize) {
        core::mem::size_of::<Self>() * 8
    }

    fn get_bit(&self, bit: usize) -> (r: bool) {
        let b = bit as u32;
        proof {
            lemma_i64_single(*self, b, 0);
        }
        (*self & (1i64 << b)) != 0
    }

    fn get_bits(&self, range: Range<usize>) -> (r: Self) {
        let shift_bits = (Self::length() - range.end) as u32;
        let bits = *self << shift_bits >> shift_bits;
        let r = bits >> (range.start as u32);
        proof {
            let s = range.start as u32;
            let e = range.end as u32;
            let target = extracted(self.bit_view(), range.start as int, range.end as int, true);
            assert forall|i: int| 0 <= i < 64 implies #[trigger] r.bit_view()[i] == target[i] by {
                lemma_i64_extract(*self, s, e, i as u32);
            }
            assert(r.bit_view() =~= target);
        }
        r
    }

    fn set_bit(&mut self, bit: usize, value: bool) -> (r: &mut Self) {
        let ghost before = *self;
        let b = bit as u32;
        let mask = 1i64 << b;
        if value {
            *self = *self | mask;
        } else {
            *self = *self & !mask;
        }
        proof {
            let target = before.bit_view().update(bit as int, value);
            assert forall|i: int| 0 <= i < 64 implies #[trigger] self.bit_view()[i] == target[i] by {
                lemma_i64_single(before, b, i as u32);
            }
            assert(self.bit_view() =~= target);
        }
        self
    }

    fn set_bits(&mut self, range: Range<usize>, value: Self) -> (r: &mut Self) {
        let ghost before = *self;
        let shift_bits = (Self::length() - range.end) as u32;
        let s = range.start as u32;
        let mask = (!0i64) << shift_bits >> shift_bits >> s << s;
        *self = (*self & !mask) | (value << s);
        proof {
            let e = range.end as u32;
            let target = placed(
                before.bit_view(),
                range.start as int,
                range.end as int,
                value.bit_view(),
                true,
            );
            assert forall|i: int| 0 <= i < 64 implies #[trigger] self.bit_view()[i] == target[i] by {
                lemma_i64_place(before, value, s, e, i as u32);
            }
            assert(self.bit_view() =~= target);
        }
        self
    }
}

/// Bit `i` (counting from the least significant) of `x`.
pub open spec fn isize_bit(x: isize, i: u32) -> bool {
    (x >> i) & 1isize == 1isize
}

/// The bits of a `isize`, least significant first.
pub open spec fn isize_bits(x: isize) -> Seq<bool> {
    Seq::new(usize::BITS as nat, |i: int| isize_bit(x, i as u32))
}

proof fn lemma_isize_single(x: isize, b: u32, i: u32)
    by (bit_vector)
    requires
        b < usize::BITS,
        i < usize::BITS,
    ensures
        ((x & (1isize << b)) != 0isize) == isize_bit(x, b),
        isize_bit(x | (1isize << b), i) == (if i == b { true } else { isize_bit(x, i) }),
        isize_bit(x & !(1isize << b), i) == (if i == b { false } else { isize_bit(x, i) }),
{
}

#[verifier::rlimit(100)]
proof fn lemma_isize_extract(x: isize, s: u32, e: u32, i: u32)
    by (bit_vector)
    requires
        s < e <= usize::BITS,
        i < usize::BITS,
    ensures
        isize_bit((x << ((usize::BITS - e) as u32)) >> ((usize::BITS - e) as u32) >> s, i) == (if i < e - s {
            isize_bit(x, (s + i) as u32)
        } else {
            isize_bit(x, (e - 1) as u32)
        }),
{
}

#[verifier::rlimit(100)]
proof fn lemma_isize_place(x: isize, v: isize, s: u32, e: u32, i: u32)
    by (bit_vector)
    requires
        s < e <= usize::BITS,
        i < usize::BITS,
    ensures
        isize_bit(
            (x & !((!0isize) << ((usize::BITS - e) as u32) >> ((usize::BITS - e) as u32) >> s << s)) | (v << s),
            i,
        ) == (if i < s {
            isize_bit(x, i)
        } else {
            isize_bit(v, (i - s) as u32)
        }),
{
}

impl BitOpt for isize {
    open spec fn width() -> nat {
        usize::BITS as nat
    }

    open spec fn is_signed() -> bool {
        true
    }

    open spec fn bit_view(&self) -> Seq<bool> {
        isize_bits(*self)
    }

    proof fn lemma_bit_view_len(&self) {
    }

    fn length() -> (n: usize) {
        core::mem::size_of::<Self>() * 8
    }

    fn get_bit(&self, bit: usize) -> (r: bool) {
        let b = bit as u32;
        proof {
            lemma_isize_single(*self, b, 0);
        }
        (*self & (1isize << b)) != 0
    }

    fn get_bits(&self, range: Range<usize>) -> (r: Self) {
        let shift_bits = (Self::length() - range.end) as u32;
        let bits = *self << shift_bits >> shift_bits;
        let r = bits >> (range.start as u32);
        proof {
            let s = range.start as u32;
            let e = range.end as u32;
            let target = extracted(self.bit_view(), range.start as int, range.end as int, true);
            assert forall|i: int| 0 <= i < usize::BITS implies #[trigger] r.bit_view()[i] == target[i] by {
                lemma_isize_extract(*self, s, e, i as u32);
            }
            assert(r.bit_view() =~= target);
        }
        r
    }

    fn set_bit(&mut self, bit: usize, value: bool) -> (r: &mut Self) {
        let ghost before = *self;
        let b = bit as u32;
        let mask = 1isize << b;
        if value {
            *self = *self | mask;
        } else {
            *self = *self & !mask;
        }
        proof {
            let target = before.bit_view().update(bit as int, value);
            assert forall|i: int| 0 <= i < usize::BITS implies #[trigger] self.bit_view()[i] == target[i] by {
                lemma_isize_single(before, b, i as u32);
            }
            assert(self.bit_view() =~= target);
        }
        self
    }

    fn set_bits(&mut self, range: Range<usize>, value: Self) -> (r: &mut Self) {
        let ghost before = *self;
        let shift_bits = (Self::length() - range.end) as u32;
        let s = range.start as u32;
        let mask = (!0isize) << shift_bits >> shift_bits >> s << s;
        *self = (*self & !mask) | (value << s);
        proof {
            let e = range.end as u32;
            let target = placed(
                before.bit_view(),
                range.start as int,
                range.end as int,
                value.bit_view(),
                true,
            );
            assert forall|i: int| 0 <= i < usize::BITS implies #[trigger] self.bit_view()[i] == target[i] by {
                lemma_isize_place(before, value, s, e, i as u32);
            }
            assert(self.bit_view() =~= target);
        }
        self
    }
}

} // verus!
