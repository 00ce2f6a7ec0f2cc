//! Compile-time checks expressed with traits: the total size of a bit-field
//! struct is a multiple of eight bits, and an enum discriminant fits in the
//! bits of its member.
//!
//! The marker types below are never constructed: their only field is private
//! and no function of the crate creates one. They serve as types alone.

use vstd::prelude::*;

verus! {

/// Maps a size marker to the check type of its remainder modulo eight.
pub trait SizeType {
    /// The remainder class.
    type CheckType;
}

/// Marker for a total size, carried as an array length in `T`.
pub struct TotalSize<T>(core::marker::PhantomData<T>);

/// Implemented only by the remainder class zero.
pub trait TotalSizeIsMultipleOfEightBits {}

/// Remainder class 0 modulo 8.
pub struct ZeroMod8 {
    never: (),
}

/// Remainder class 1 modulo 8.
pub struct OneMod8 {
    never: (),
}

/// Remainder class 2 modulo 8.
pub struct TwoMod8 {
    never: (),
}

/// Remainder class 3 modulo 8.
pub struct ThreeMod8 {
    never: (),
}

/// Remainder class 4 modulo 8.
pub struct FourMod8 {
    never: (),
}

/// Remainder class 5 modulo 8.
pub struct FiveMod8 {
    never: (),
}

/// Remainder class 6 modulo 8.
pub struct SixMod8 {
    never: (),
}

/// Remainder class 7 modulo 8.
pub struct SevenMod8 {
    never: (),
}

impl SizeType for TotalSize<[(); 0]> {
    type CheckType = ZeroMod8;
}

impl SizeType for TotalSize<[(); 1]> {
    type CheckType = OneMod8;
}

impl SizeType for TotalSize<[(); 2]> {
    type CheckType = TwoMod8;
}

impl SizeType for TotalSize<[(); 3]> {
    type CheckType = ThreeMod8;
}

impl SizeType for TotalSize<[(); 4]> {
    type CheckType = FourMod8;
}

impl SizeType for TotalSize<[(); 5]> {
    type CheckType = FiveMod8;
}

impl SizeType for TotalSize<[(); 6]> {
    type CheckType = SixMod8;
}

impl SizeType for TotalSize<[(); 7]> {
    type CheckType = SevenMod8;
}

impl TotalSizeIsMultipleOfEightBits for ZeroMod8 {}

/// Holds only when the size marker `Size` is a multiple of eight bits.
pub trait CheckTotalSizeMultipleOf8 where
    <Self::Size as SizeType>::CheckType: TotalSizeIsMultipleOfEightBits,
 {
    /// The size marker.
    type Size: SizeType;
}

/// Implemented only by [`True`].
pub trait DiscriminantInRange {}

/// Type-level truth.
pub struct True {
    never: (),
}

/// Type-level falsity.
pub struct False {
    never: (),
}

/// Maps `[(); 0]` to [`False`] and `[(); 1]` to [`True`].
pub trait DispatchTrueFalse {
    /// The truth value.
    type Out;
}

impl DiscriminantInRange for True {}

impl DispatchTrueFalse for [(); 0] {
    type Out = False;
}

impl DispatchTrueFalse for [(); 1] {
    type Out = True;
}

/// Holds only when the check type dispatches to [`True`], that is when the
/// discriminant `A` is in range.
pub trait CheckDiscriminantInRange<A> where
    <Self::CheckType as DispatchTrueFalse>::Out: DiscriminantInRange,
 {
    /// `[(); 1]` when the discriminant is in range, `[(); 0]` otherwise.
    type CheckType: DispatchTrueFalse;
}

} // verus!
