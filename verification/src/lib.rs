//! Verified building blocks of a small family of procedural macros: bit
//! manipulation on integers, byte-array bit fields, token repetition,
//! ordering checks, attribute queries and trait-bound planning.

pub mod bits;
pub mod bitfield;
pub mod specifier;
pub mod bit_types;
pub mod text;
pub mod tokens;
pub mod seq_macro;
pub mod sorted;
pub mod util;
pub mod check;
pub mod custom_debug;
pub mod builder;
