//! How bit-field member types are stored: widths, storage integers, byte
//! sizes of whole structs and the rules for enums used as members.

use crate::text::{concat, decimal, decimal_string};
use vstd::arithmetic::power2::{pow2, lemma2_to64, lemma_pow2_strictly_increases, lemma_pow2_unfold};
use vstd::prelude::*;

verus! {

/// A type that can be stored in a bit field.
pub trait Specifier {
    /// Number of bits the type occupies.
    const BITS: usize;

    /// Integer type in which a value is stored.
    type UNIT;

    /// Type of the values read and written.
    type InOut;

    /// Converts a value to its stored form.
    fn to_bytes(input: Self::InOut) -> Self::UNIT;

    /// Converts a stored form back to a value.
    fn try_from(v: Self::UNIT) -> Self::InOut;
}

impl Specifier for bool {
    const BITS: usize = 1;

    type UNIT = u8;

    type InOut = bool;

    fn to_bytes(input: bool) -> (r: u8)
        ensures
            r == (if input { 1u8 } else { 0u8 }),
    {
        input as u8
    }

    fn try_from(v: u8) -> bool
        returns
            v == 1,
    {
        v == 1
    }
}

/// A `bool` member reads back the value written: `try_from` of the stored
/// form of `b` is `b`.
pub proof fn law_bool_reads_back(b: bool)
    ensures
        ((if b { 1u8 } else { 0u8 }) == 1u8) == b,
{
}

/// Width of the smallest unsigned integer among `u8`, `u16`, `u32` and `u64`
/// that holds `bits` bits.
pub open spec fn storage_width(bits: nat) -> nat {
    if bits <= 8 {
        8
    } else if bits <= 16 {
        16
    } else if bits <= 32 {
        32
    } else {
        64
    }
}

/// Width of the storage integer of a member of `bits` bits.
pub fn storage_bits(bits: usize) -> (r: usize)
    requires
        bits <= 64,
    ensures
        r == storage_width(bits as nat),
{
    if bits <= 8 {
        8
    } else if bits <= 16 {
        16
    } else if bits <= 32 {
        32
    } else {
        64
    }
}

/// Number of bytes that hold `total_bits` bits.
pub fn byte_size(total_bits: usize) -> (r: usize)
    requires
        total_bits > 0,
    ensures
        r == (total_bits - 1) / 8 + 1,
        r * 8 >= total_bits,
        (r - 1) * 8 < total_bits,
{
    (total_bits - 1) / 8 + 1
}

/// One of the predefined member types `B1` to `B64`.
pub struct BitsType {
    /// Type name, `B` followed by the width.
    pub name: String,
    /// Width in bits.
    pub bits: usize,
    /// Width of the storage integer.
    pub unit_bits: usize,
}

/// The predefined member types `B1` to `B64`, in order of width.
pub fn bits_types() -> (r: Vec<BitsType>)
    ensures
        r.len() == 64,
        forall|i: int|
            0 <= i < 64 ==> {
                &&& #[trigger] r[i].bits == i + 1
                &&& r[i].name@ == seq!['B'] + decimal((i + 1) as nat)
                &&& r[i].unit_bits == storage_width((i + 1) as nat)
            },
{
    let mut r: Vec<BitsType> = Vec::new();
    let mut i: usize = 1;
    while i <= 64
        invariant
            1 <= i <= 65,
            r.len() == i - 1,
            forall|j: int|
                0 <= j < i - 1 ==> {
                    &&& #[trigger] r[j].bits == j + 1
                    &&& r[j].name@ == seq!['B'] + decimal((j + 1) as nat)
                    &&& r[j].unit_bits == storage_width((j + 1) as nat)
                },
        decreases 65 - i,
    {
        let digits = decimal_string(i);
        let name = concat("B", digits.as_str());
        proof {
            reveal_strlit("B");
            assert("B"@ =~= seq!['B']);
            assert(name@ == seq!['B'] + decimal(i as nat));
        }
        let unit_bits = storage_bits(i);
        let ghost before = r@;
        let ghost added = BitsType { name, bits: i, unit_bits };
        r.push(BitsType { name, bits: i, unit_bits });
        proof {
            assert(r@ == before.push(added));
            assert forall|j: int| 0 <= j < i implies {
                &&& #[trigger] r[j].bits == j + 1
                &&& r[j].name@ == seq!['B'] + decimal((j + 1) as nat)
                &&& r[j].unit_bits == storage_width((j + 1) as nat)
            } by {
                if j < i - 1 {
                    assert(r[j] == before[j]);
                } else {
                    assert(r[j] == added);
                }
            }
        }
        i = i + 1;
    }
    r
}

/// Why an enum cannot be a member type.
#[derive(Debug, Clone, Copy, PartialEq, Eq)]
pub enum SpecifierError {
    /// The number of variants is not a power of two.
    VariantCountNotPowerOfTwo,
}

impl SpecifierError {
    /// The diagnostic reported for the error.
    pub fn message(&self) -> (r: &'static str)
        ensures
            r@ == "BitfieldSpecifier expected a number of variants which is a power of 2"@,
    {
        "BitfieldSpecifier expected a number of variants which is a power of 2"
    }
}

/// Whether `n` is a power of two.
pub open spec fn is_power_of_two(n: nat) -> bool {
    exists|k: nat| pow2(k) == n
}

/// Width of an enum member with `count` variants: `log2(count)` when the
/// count is a power of two, and an error otherwise.
pub fn specifier_bits(count: usize) -> (r: Result<usize, SpecifierError>)
    ensures
        r is Ok <==> is_power_of_two(count as nat),
        r matches Ok(b) ==> pow2(b as nat) == count,
        r matches Err(e) ==> e == SpecifierError::VariantCountNotPowerOfTwo,
{
    let mut k: usize = 0;
    let mut p: usize = 1;
    proof {
        lemma2_to64();
    }
    while p < count
        invariant
            p == pow2(k as nat),
            k < usize::BITS,
            p >= 1,
            forall|j: nat| j < k ==> #[trigger] pow2(j) < count,
        decreases usize::BITS - k,
    {
        if p > usize::MAX / 2 {
            proof {
                assert forall|j: nat| pow2(j) != count by {
                    if j > k {
                        lemma_pow2_strictly_increases(k as nat, j);
                        lemma_pow2_unfold((k + 1) as nat);
                        if j > k + 1 {
                            lemma_pow2_strictly_increases((k + 1) as nat, j);
                        }
                    }
                }
            }
            return Err(SpecifierError::VariantCountNotPowerOfTwo);
        }
        proof {
            lemma_pow2_unfold((k + 1) as nat);
            vstd::bits::lemma_usize_pow2_no_overflow(k as nat);
        }
        p = p * 2;
        k = k + 1;
        proof {
            assert(k < usize::BITS) by {
                lemma2_to64();
                if k >= usize::BITS {
                    if k > usize::BITS {
                        lemma_pow2_strictly_increases(usize::BITS as nat, k as nat);
                    }
                }
            }
        }
    }
    if p == count {
        Ok(k)
    } else {
        proof {
            assert forall|j: nat| pow2(j) != count by {
                if j > k {
                    lemma_pow2_strictly_increases(k as nat, j);
                }
            }
        }
        Err(SpecifierError::VariantCountNotPowerOfTwo)
    }
}

/// Whether a discriminant fits in a member of `bits` bits.
pub fn discriminant_in_range(discriminant: usize, bits: usize) -> (r: bool)
    requires
        bits < usize::BITS,
    ensures
        r == (discriminant < pow2(bits as nat)),
{
    proof {
        vstd::bits::lemma_usize_pow2_no_overflow(bits as nat);
        vstd::bits::lemma_usize_shl_is_mul(1, bits);
    }
    discriminant < (1usize << bits)
}

/// Index of the first variant whose discriminant equals the stored value, if
/// any.
pub fn variant_of_value(discriminants: &Vec<u64>, v: u64) -> (r: Option<usize>)
    ensures
        r matches Some(i) ==> i < discriminants.len() && discriminants[i as int] == v && forall|
            j: int,
        |
            0 <= j < i ==> discriminants[j] != v,
        r is None ==> forall|j: int| 0 <= j < discriminants.len() ==> discriminants[j] != v,
{
    let mut i: usize = 0;
    while i < discriminants.len()
        invariant
            i <= discriminants.len(),
            forall|j: int| 0 <= j < i ==> discriminants[j] != v,
        decreases discriminants.len() - i,
    {
        if discriminants[i] == v {
            return Some(i);
        }
        i = i + 1;
    }
    None
}

/// Whether no two variants share a discriminant.
pub open spec fn all_distinct(d: Seq<u64>) -> bool {
    forall|i: int, j: int| 0 <= i < j < d.len() ==> d[i] != d[j]
}

/// With distinct discriminants, a variant reads back as itself: the variant
/// `variant_of_value` finds for the discriminant of variant `i` (the first
/// one holding it) is `i`.
pub proof fn law_variant_reads_back(d: Seq<u64>, i: int, found: int)
    requires
        all_distinct(d),
        0 <= i < d.len(),
        0 <= found < d.len(),
        d[found] == d[i],
        forall|j: int| 0 <= j < found ==> d[j] != d[i],
    ensures
        found == i,
{
    if found < i {
        assert(d[found] != d[i]);
    } else if found > i {
        assert(d[i] != d[found]);
    }
}

} // verus!
