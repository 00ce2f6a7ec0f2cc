//! Fields of a few bits packed into a byte buffer.
//!
//! A buffer is viewed as one sequence of bits: bit `k` of byte `j` is bit
//! `8 * j + k` of the buffer. A field of `bits` bits starting at bit `start`
//! holds bit `i` of its value at buffer bit `start + i`.

use crate::bits::{BitOpt, u64_bit, u64_bits, u8_bit, u8_bits, extracted, placed};
use vstd::prelude::*;

verus! {

/// The bits of a byte buffer, bit `k` of byte `j` at position `8 * j + k`.
pub open spec fn buffer_bits(data: Seq<u8>) -> Seq<bool> {
    Seq::new(data.len() * 8, |p: int| u8_bit(data[p / 8], (p % 8) as u32))
}

/// First bit position after the byte that holds bit `end - 1`.
pub open spec fn byte_boundary_after(end: int) -> int {
    if end % 8 == 0 {
        end
    } else {
        end - end % 8 + 8
    }
}

/// The buffer `d` after writing the value with bits `v` into the field of
/// `bits` bits at `start`. The field takes the low bits of `v`. The bits of
/// `v` above the field are or-ed into the rest of the byte that holds the
/// last bit of the field; every other bit is kept.
pub open spec fn written_field(d: Seq<bool>, start: int, bits: int, v: Seq<bool>) -> Seq<bool> {
    Seq::new(
        d.len(),
        |p: int|
            if start <= p < start + bits {
                v[p - start]
            } else if 0 < bits && start + bits <= p < byte_boundary_after(start + bits) && p - start
                < v.len() {
                d[p] || v[p - start]
            } else {
                d[p]
            },
    )
}

/// The bits of the value read from the field of `bits` bits at `start`:
/// the field's bits, then zeros.
pub open spec fn read_field(d: Seq<bool>, start: int, bits: int) -> Seq<bool> {
    Seq::new(64, |i: int| if i < bits { d[start + i] } else { false })
}

#[verifier::opaque]
spec fn partially_written(d: Seq<bool>, start: int, done: int, bits: int, v: Seq<bool>) -> Seq<
    bool,
> {
    if done == bits {
        written_field(d, start, bits, v)
    } else {
        Seq::new(d.len(), |p: int| if start <= p < start + done { v[p - start] } else { d[p] })
    }
}

proof fn lemma_u64_chunks(v: u64, b: u8, c: u32, k: u32)
    by (bit_vector)
    requires
        c < 64,
        k < 64,
    ensures
        !u64_bit(0u64, k),
        k < 8 ==> u8_bit(v as u8, k) == u64_bit(v, k),
        c <= 8 ==> u64_bit(v >> c, k) == (k + c < 64 && u64_bit(v, (k + c) as u32)),
        u64_bit(v | ((b as u64) << c), k) == (u64_bit(v, k) || (c <= k && k < c + 8 && u8_bit(
            b,
            (k - c) as u32,
        ))),
{
}

proof fn lemma_write_step(
    d0: Seq<bool>,
    v0: Seq<bool>,
    before: Seq<u8>,
    after: Seq<u8>,
    start: int,
    total: int,
    c: int,
    index: int,
    offset: int,
    copy: int,
    b: u8,
    value: u64,
)
    requires
        0 <= start,
        0 <= c < total <= 64,
        start + total <= before.len() * 8,
        d0.len() == before.len() * 8,
        v0.len() == 64,
        0 <= offset < 8,
        index * 8 + offset == start + c,
        copy == if total - c < 8 - offset { total - c } else { 8 - offset },
        b == #[verifier::truncate] (value as u8),
        forall|j: int| 0 <= j < 64 ==> #[trigger] u64_bits(value)[j] == (j + c < 64 && v0[j + c]),
        buffer_bits(before) == partially_written(d0, start, c, total, v0),
        after.len() == before.len(),
        forall|j: int| 0 <= j < after.len() && j != index ==> after[j] == before[j],
        u8_bits(after[index]) == placed(u8_bits(before[index]), offset, offset + copy, u8_bits(b), false),
    ensures
        buffer_bits(after) == partially_written(d0, start, c + copy, total, v0),
{
    reveal(partially_written);
    let target = partially_written(d0, start, c + copy, total, v0);
    let pw = partially_written(d0, start, c, total, v0);
    assert forall|p: int| 0 <= p < after.len() * 8 implies #[trigger] buffer_bits(after)[p]
        == target[p] by {
        let q = p / 8;
        let k = p % 8;
        assert(buffer_bits(before)[p] == pw[p]);
        assert(p == q * 8 + k && 0 <= k < 8);
        if q == index {
            let ab = u8_bits(after[index]);
            let bb = u8_bits(before[index]);
            assert(buffer_bits(after)[p] == ab[k]);
            assert(buffer_bits(before)[p] == bb[k]);
            if k < offset {
                assert(ab[k] == bb[k]);
                assert(p < start + c);
                assert(target[p] == pw[p]);
            } else if k < offset + copy {
                lemma_u64_chunks(value, 0, 0, (k - offset) as u32);
                assert(u8_bits(b)[k - offset] == u64_bits(value)[k - offset]);
                assert(ab[k] == u8_bits(b)[k - offset]);
                assert(p - start == c + (k - offset));
                assert(target[p] == v0[p - start]);
            } else {
                lemma_u64_chunks(value, 0, 0, (k - offset) as u32);
                assert(u8_bits(b)[k - offset] == u64_bits(value)[k - offset]);
                assert(ab[k] == (bb[k] || u8_bits(b)[k - offset]));
                assert(offset + copy < 8);
                assert(c + copy == total);
                assert(start + total == index * 8 + offset + copy);
                assert((start + total) % 8 == offset + copy);
                assert(byte_boundary_after(start + total) == index * 8 + 8);
                assert(pw[p] == d0[p]);
                assert(p - start == c + (k - offset));
                assert(target[p] == (d0[p] || (p - start < 64 && v0[p - start])));
            }
        } else {
            assert(after[q] == before[q]);
            if c + copy == total && 0 < total && start + total <= p < byte_boundary_after(start + total) {
                assert((start + total) % 8 == offset + copy);
                assert(false);
            }
            assert(target[p] == pw[p]);
        }
    }
    assert(buffer_bits(after) =~= target);
}

/// Writes the low `bits` bits of `value` into the field at bit `start` of
/// `data`.
pub fn set_field(data: &mut [u8], start: usize, bits: usize, value: u64)
    requires
        bits <= 64,
        start + bits <= old(data)@.len() * 8,
    ensures
        final(data)@.len() == old(data)@.len(),
        buffer_bits(final(data)@) == written_field(
            buffer_bits(old(data)@),
            start as int,
            bits as int,
            u64_bits(value),
        ),
{
    let ghost d0 = buffer_bits(data@);
    let ghost v0 = u64_bits(value);
    let ghost total = bits;
    let mut index = start / 8;
    let mut offset = start % 8;
    let mut bits = bits;
    let mut value = value;
    assert(buffer_bits(data@) =~= partially_written(d0, start as int, 0, total as int, v0)) by {
        reveal(partially_written);
        if total == 0 {
            assert(written_field(d0, start as int, 0, v0) =~= d0);
        }
    }
    while bits > 0
        invariant
            total <= 64,
            start + total <= data@.len() * 8,
            d0.len() == data@.len() * 8,
            v0.len() == 64,
            bits <= total,
            offset < 8,
            index * 8 + offset == start + (total - bits),
            forall|j: int|
                0 <= j < 64 ==> #[trigger] u64_bits(value)[j] == (j + (total - bits) < 64 && v0[j
                    + (total - bits)]),
            buffer_bits(data@) == partially_written(
                d0,
                start as int,
                (total - bits) as int,
                total as int,
                v0,
            ),
        decreases bits,
    {
        let ghost c = (total - bits) as int;
        assert(c < total);
        let ghost data_before = data@;
        let copy_bits = if bits < 8 - offset {
            bits
        } else {
            8 - offset
        };
        let end = offset + copy_bits;
        let b = value as u8;
        let mut byte = data[index];
        byte.set_bits(offset..end, b);
        data[index] = byte;
        proof {
            lemma_write_step(
                d0,
                v0,
                data_before,
                data@,
                start as int,
                total as int,
                c,
                index as int,
                offset as int,
                copy_bits as int,
                b,
                value,
            );
        }
        let ghost value_before = value;
        value = value >> (copy_bits as u32);
        proof {
            let nc = c + copy_bits;
            assert forall|j: int| 0 <= j < 64 implies #[trigger] u64_bits(value)[j] == (j + nc < 64
                && v0[j + nc]) by {
                lemma_u64_chunks(value_before, 0, copy_bits as u32, j as u32);
                if j + copy_bits < 64 {
                    assert(u64_bits(value_before)[j + copy_bits] == (j + copy_bits + c < 64
                        && v0[j + copy_bits + c]));
                }
            }
        }
        bits = bits - copy_bits;
        offset = offset + copy_bits;
        if offset >= 8 {
            offset = 0;
            index = index + 1;
        }
    }
    proof {
        reveal(partially_written);
    }
}

proof fn lemma_read_step(
    data: Seq<u8>,
    start: int,
    total: int,
    c: int,
    index: int,
    offset: int,
    copy: int,
    b: u8,
    value: u64,
    next: u64,
)
    requires
        0 <= start,
        0 <= c < total <= 64,
        start + total <= data.len() * 8,
        0 <= offset < 8,
        index * 8 + offset == start + c,
        copy == if total - c < 8 - offset { total - c } else { 8 - offset },
        u8_bits(b) == extracted(u8_bits(data[index]), offset, offset + copy, false),
        forall|q: int|
            0 <= q < 64 ==> #[trigger] u64_bits(value)[q] == (q < c && buffer_bits(data)[start
                + q]),
        next == value | ((b as u64) << (c as u32)),
    ensures
        forall|q: int|
            0 <= q < 64 ==> #[trigger] u64_bits(next)[q] == (q < c + copy && buffer_bits(
                data,
            )[start + q]),
{
    assert forall|q: int| 0 <= q < 64 implies #[trigger] u64_bits(next)[q] == (q < c + copy
        && buffer_bits(data)[start + q]) by {
        lemma_u64_chunks(value, b, c as u32, q as u32);
        assert(u64_bits(value)[q] == (q < c && buffer_bits(data)[start + q]));
        if c <= q < c + 8 {
            assert(u8_bits(b)[q - c] == u8_bit(b, (q - c) as u32));
        }
        if c <= q < c + copy {
            let p = start + q;
            assert(p == index * 8 + offset + (q - c));
            assert(p / 8 == index && p % 8 == offset + (q - c));
            assert(buffer_bits(data)[p] == u8_bits(data[index])[offset + (q - c)]);
        }
    }
}

/// Reads the field of `bits` bits at bit `start` of `data`.
pub fn get_field(data: &[u8], start: usize, bits: usize) -> (r: u64)
    requires
        bits <= 64,
        start + bits <= data@.len() * 8,
    ensures
        u64_bits(r) == read_field(buffer_bits(data@), start as int, bits as int),
{
    let ghost total = bits;
    let mut index = start / 8;
    let mut offset = start % 8;
    let mut bits = bits;
    let mut value: u64 = 0;
    let mut last_copy: usize = 0;
    proof {
        assert forall|q: int| 0 <= q < 64 implies #[trigger] u64_bits(value)[q] == (q < 0
            && buffer_bits(data@)[start + q]) by {
            lemma_u64_chunks(0, 0, 0, q as u32);
        }
    }
    while bits > 0
        invariant
            total <= 64,
            start + total <= data@.len() * 8,
            bits <= total,
            last_copy == total - bits,
            offset < 8,
            index * 8 + offset == start + last_copy,
            forall|q: int|
                0 <= q < 64 ==> #[trigger] u64_bits(value)[q] == (q < last_copy && buffer_bits(
                    data@,
                )[start + q]),
        decreases bits,
    {
        let copy_bits = if bits < 8 - offset {
            bits
        } else {
            8 - offset
        };
        let end = offset + copy_bits;
        let b = data[index].get_bits(offset..end);
        let ghost value_before = value;
        value = value | ((b as u64) << (last_copy as u32));
        proof {
            lemma_read_step(
                data@,
                start as int,
                total as int,
                last_copy as int,
                index as int,
                offset as int,
                copy_bits as int,
                b,
                value_before,
                value,
            );
        }
        bits = bits - copy_bits;
        offset = offset + copy_bits;
        if offset >= 8 {
            offset = 0;
            index = index + 1;
        }
        last_copy = last_copy + copy_bits;
    }
    proof {
        assert(u64_bits(value) =~= read_field(buffer_bits(data@), start as int, total as int));
    }
    value
}

/// Reading a field right after writing `v` into it gives the low `bits` bits
/// of `v`, whatever the buffer held before.
pub proof fn law_get_after_set(d: Seq<bool>, start: int, bits: int, v: Seq<bool>)
    requires
        0 <= start,
        0 <= bits <= 64,
        start + bits <= d.len(),
        v.len() == 64,
    ensures
        read_field(written_field(d, start, bits, v), start, bits) == Seq::new(
            64,
            |i: int| i < bits && v[i],
        ),
{
    assert(read_field(written_field(d, start, bits, v), start, bits) =~= Seq::new(
        64,
        |i: int| i < bits && v[i],
    ));
}

/// Writing a value that fits in the field changes no bit outside the field.
pub proof fn law_set_keeps_other_bits(d: Seq<bool>, start: int, bits: int, v: Seq<bool>)
    requires
        0 <= start,
        0 <= bits <= 64,
        start + bits <= d.len(),
        v.len() == 64,
        forall|i: int| bits <= i < 64 ==> !#[trigger] v[i],
    ensures
        forall|p: int|
            0 <= p < d.len() && !(start <= p < start + bits) ==> #[trigger] written_field(
                d,
                start,
                bits,
                v,
            )[p] == d[p],
{
    assert forall|p: int|
        0 <= p < d.len() && !(start <= p < start + bits) implies #[trigger] written_field(
        d,
        start,
        bits,
        v,
    )[p] == d[p] by {
        if 0 < bits && start + bits <= p < byte_boundary_after(start + bits) && p - start < 64 {
            assert(!v[p - start]);
        }
    }
}

/// Fields that do not overlap are independent: writing a value that fits into
/// one leaves what the other reads unchanged.
pub proof fn law_disjoint_fields(
    d: Seq<bool>,
    start: int,
    bits: int,
    v: Seq<bool>,
    other_start: int,
    other_bits: int,
)
    requires
        0 <= start,
        0 <= bits <= 64,
        start + bits <= d.len(),
        0 <= other_start,
        0 <= other_bits <= 64,
        other_start + other_bits <= d.len(),
        start + bits <= other_start || other_start + other_bits <= start,
        v.len() == 64,
        forall|i: int| bits <= i < 64 ==> !#[trigger] v[i],
    ensures
        read_field(written_field(d, start, bits, v), other_start, other_bits) == read_field(
            d,
            other_start,
            other_bits,
        ),
{
    law_set_keeps_other_bits(d, start, bits, v);
    let w = written_field(d, start, bits, v);
    assert forall|i: int| 0 <= i < 64 implies #[trigger] read_field(w, other_start, other_bits)[i]
        == read_field(d, other_start, other_bits)[i] by {
        if i < other_bits {
            assert(w[other_start + i] == d[other_start + i]);
        }
    }
    assert(read_field(w, other_start, other_bits) =~= read_field(d, other_start, other_bits));
}

} // verus!
