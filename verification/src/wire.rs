//! Big-endian byte layout helpers shared by the track codec and the
//! RTP packet builder.

use vstd::prelude::*;

verus! {

/// The two big-endian bytes of a 16-bit value.
pub open spec fn be16(x: u16) -> Seq<u8> {
    seq![(x >> 8) as u8, (x & 0xff) as u8]
}

/// The four big-endian bytes of a 32-bit value.
pub open spec fn be32(x: u32) -> Seq<u8> {
    seq![
        ((x >> 24) & 0xff) as u8,
        ((x >> 16) & 0xff) as u8,
        ((x >> 8) & 0xff) as u8,
        (x & 0xff) as u8,
    ]
}

/// The eight big-endian bytes of a 64-bit value.
pub open spec fn be64(x: u64) -> Seq<u8> {
    seq![
        ((x >> 56) & 0xff) as u8,
        ((x >> 48) & 0xff) as u8,
        ((x >> 40) & 0xff) as u8,
        ((x >> 32) & 0xff) as u8,
        ((x >> 24) & 0xff) as u8,
        ((x >> 16) & 0xff) as u8,
        ((x >> 8) & 0xff) as u8,
        (x & 0xff) as u8,
    ]
}

/// The value stored in two big-endian bytes.
pub open spec fn be16_value(b0: u8, b1: u8) -> u16 {
    ((b0 as u16) << 8) | (b1 as u16)
}

/// The value stored in four big-endian bytes.
pub open spec fn be32_value(b0: u8, b1: u8, b2: u8, b3: u8) -> u32 {
    ((be16_value(b0, b1) as u32) << 16) | (be16_value(b2, b3) as u32)
}

/// The value stored in eight big-endian bytes.
pub open spec fn be64_value(
    b0: u8,
    b1: u8,
    b2: u8,
    b3: u8,
    b4: u8,
    b5: u8,
    b6: u8,
    b7: u8,
) -> u64 {
    ((be32_value(b0, b1, b2, b3) as u64) << 32) | (be32_value(b4, b5, b6, b7) as u64)
}

/// Appends the two big-endian bytes of `x` to `out`.
pub fn push_be16(out: &mut Vec<u8>, x: u16)
    ensures
        final(out)@ == old(out)@ + be16(x),
{
    out.push((x >> 8) as u8);
    out.push((x & 0xff) as u8);
    assert(final(out)@ =~= old(out)@ + be16(x));
}

/// Appends the four big-endian bytes of `x` to `out`.
pub fn push_be32(out: &mut Vec<u8>, x: u32)
    ensures
        final(out)@ == old(out)@ + be32(x),
{
    out.push(((x >> 24) & 0xff) as u8);
    out.push(((x >> 16) & 0xff) as u8);
    out.push(((x >> 8) & 0xff) as u8);
    out.push((x & 0xff) as u8);
    assert(final(out)@ =~= old(out)@ + be32(x));
}

/// Appends the eight big-endian bytes of `x` to `out`.
pub fn push_be64(out: &mut Vec<u8>, x: u64)
    ensures
        final(out)@ == old(out)@ + be64(x),
{
    out.push(((x >> 56) & 0xff) as u8);
    out.push(((x >> 48) & 0xff) as u8);
    out.push(((x >> 40) & 0xff) as u8);
    out.push(((x >> 32) & 0xff) as u8);
    out.push(((x >> 24) & 0xff) as u8);
    out.push(((x >> 16) & 0xff) as u8);
    out.push(((x >> 8) & 0xff) as u8);
    out.push((x & 0xff) as u8);
    assert(final(out)@ =~= old(out)@ + be64(x));
}

/// Reading back the two bytes written by `be16` recovers the value.
pub proof fn lemma_be16_round_trip(x: u16)
    ensures
        be16_value(be16(x)[0], be16(x)[1]) == x,
{
    let b0 = (x >> 8) as u8;
    let b1 = (x & 0xff) as u8;
    assert((((b0 as u16) << 8) | (b1 as u16)) == x) by (bit_vector)
        requires
            b0 == (x >> 8) as u8,
            b1 == (x & 0xff) as u8,
    ;
}

/// Reading back the four bytes written by `be32` recovers the value.
pub proof fn lemma_be32_round_trip(x: u32)
    ensures
        be32_value(be32(x)[0], be32(x)[1], be32(x)[2], be32(x)[3]) == x,
{
    let b0 = ((x >> 24) & 0xff) as u8;
    let b1 = ((x >> 16) & 0xff) as u8;
    let b2 = ((x >> 8) & 0xff) as u8;
    let b3 = (x & 0xff) as u8;
    let h = be16_value(b0, b1);
    let l = be16_value(b2, b3);
    assert((((h as u32) << 16) | (l as u32)) == x) by (bit_vector)
        requires
            b0 == ((x >> 24) & 0xff) as u8,
            b1 == ((x >> 16) & 0xff) as u8,
            b2 == ((x >> 8) & 0xff) as u8,
            b3 == (x & 0xff) as u8,
            h == ((b0 as u16) << 8) | (b1 as u16),
            l == ((b2 as u16) << 8) | (b3 as u16),
    ;
}

/// Reading back the eight bytes written by `be64` recovers the value.
pub proof fn lemma_be64_round_trip(x: u64)
    ensures
        be64_value(
            be64(x)[0],
            be64(x)[1],
            be64(x)[2],
            be64(x)[3],
            be64(x)[4],
            be64(x)[5],
            be64(x)[6],
            be64(x)[7],
        ) == x,
{
    let b0 = ((x >> 56) & 0xff) as u8;
    let b1 = ((x >> 48) & 0xff) as u8;
    let b2 = ((x >> 40) & 0xff) as u8;
    let b3 = ((x >> 32) & 0xff) as u8;
    let b4 = ((x >> 24) & 0xff) as u8;
    let b5 = ((x >> 16) & 0xff) as u8;
    let b6 = ((x >> 8) & 0xff) as u8;
    let b7 = (x & 0xff) as u8;
    let hi16a = be16_value(b0, b1);
    let hi16b = be16_value(b2, b3);
    let lo16a = be16_value(b4, b5);
    let lo16b = be16_value(b6, b7);
    let hi = be32_value(b0, b1, b2, b3);
    let lo = be32_value(b4, b5, b6, b7);
    assert((((hi as u64) << 32) | (lo as u64)) == x) by (bit_vector)
        requires
            b0 == ((x >> 56) & 0xff) as u8,
            b1 == ((x >> 48) & 0xff) as u8,
            b2 == ((x >> 40) & 0xff) as u8,
            b3 == ((x >> 32) & 0xff) as u8,
            b4 == ((x >> 24) & 0xff) as u8,
            b5 == ((x >> 16) & 0xff) as u8,
            b6 == ((x >> 8) & 0xff) as u8,
            b7 == (x & 0xff) as u8,
            hi16a == ((b0 as u16) << 8) | (b1 as u16),
            hi16b == ((b2 as u16) << 8) | (b3 as u16),
            lo16a == ((b4 as u16) << 8) | (b5 as u16),
            lo16b == ((b6 as u16) << 8) | (b7 as u16),
            hi == ((hi16a as u32) << 16) | (hi16b as u32),
            lo == ((lo16a as u32) << 16) | (lo16b as u32),
    ;
}

/// Copies the bytes of `data` between `start` and `end` into a new vector.
pub fn vec_range(data: &Vec<u8>, start: usize, end: usize) -> (r: Vec<u8>)
    requires
        start <= end,
        end <= data.len(),
    ensures
        r@ == data@.subrange(start as int, end as int),
{
    vstd::slice::slice_to_vec(vstd::slice::slice_subrange(data.as_slice(), start, end))
}

/// Reads the two big-endian bytes at `pos`.
pub fn read_be16(data: &Vec<u8>, pos: usize) -> (r: u16)
    requires
        pos + 2 <= data.len(),
    ensures
        r == be16_value(data@[pos as int], data@[pos as int + 1]),
{
    let b0: u8 = data[pos];
    let b1: u8 = data[pos + 1];
    ((b0 as u16) << 8) | (b1 as u16)
}

/// Reads the four big-endian bytes at `pos`.
pub fn read_be32(data: &Vec<u8>, pos: usize) -> (r: u32)
    requires
        pos + 4 <= data.len(),
    ensures
        r == be32_value(
            data@[pos as int],
            data@[pos as int + 1],
            data@[pos as int + 2],
            data@[pos as int + 3],
        ),
{
    let h: u16 = read_be16(data, pos);
    let l: u16 = read_be16(data, pos + 2);
    ((h as u32) << 16) | (l as u32)
}

/// Reads the eight big-endian bytes at `pos`.
pub fn read_be64(data: &Vec<u8>, pos: usize) -> (r: u64)
    requires
        pos + 8 <= data.len(),
    ensures
        r == be64_value(
            data@[pos as int],
            data@[pos as int + 1],
            data@[pos as int + 2],
            data@[pos as int + 3],
            data@[pos as int + 4],
            data@[pos as int + 5],
            data@[pos as int + 6],
            data@[pos as int + 7],
        ),
{
    let h: u32 = read_be32(data, pos);
    let l: u32 = read_be32(data, pos + 4);
    ((h as u64) << 32) | (l as u64)
}

} // verus!
