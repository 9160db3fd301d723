//! Byte-level helpers shared by the wire formats: big-endian integers and
//! appending slices to buffers.

use vstd::prelude::*;

verus! {

/// Big-endian encoding of a 16-bit value.
pub open spec fn be16(x: u16) -> Seq<u8> {
    seq![(x >> 8u16) as u8, x as u8]
}

/// Big-endian encoding of a 32-bit value.
pub open spec fn be32(x: u32) -> Seq<u8> {
    seq![(x >> 24u32) as u8, (x >> 16u32) as u8, (x >> 8u32) as u8, x as u8]
}

/// Big-endian encoding of a 64-bit value.
pub open spec fn be64(x: u64) -> Seq<u8> {
    seq![
        (x >> 56u64) as u8,
        (x >> 48u64) as u8,
        (x >> 40u64) as u8,
        (x >> 32u64) as u8,
        (x >> 24u64) as u8,
        (x >> 16u64) as u8,
        (x >> 8u64) as u8,
        x as u8,
    ]
}

/// The 16-bit value whose big-endian encoding starts at `s[at]`.
pub open spec fn read_be16(s: Seq<u8>, at: int) -> u16 {
    ((s[at] as u16) << 8u16) | (s[at + 1] as u16)
}

/// The 32-bit value whose big-endian encoding starts at `s[at]`.
pub open spec fn read_be32(s: Seq<u8>, at: int) -> u32 {
    ((s[at] as u32) << 24u32) | ((s[at + 1] as u32) << 16u32) | ((s[at + 2] as u32) << 8u32) | (
    s[at + 3] as u32)
}

/// The 64-bit value whose big-endian encoding starts at `s[at]`.
pub open spec fn read_be64(s: Seq<u8>, at: int) -> u64 {
    ((s[at] as u64) << 56u64) | ((s[at + 1] as u64) << 48u64) | ((s[at + 2] as u64) << 40u64) | ((
    s[at + 3] as u64) << 32u64) | ((s[at + 4] as u64) << 24u64) | ((s[at + 5] as u64) << 16u64)
        | ((s[at + 6] as u64) << 8u64) | (s[at + 7] as u64)
}

/// Reading back a 16-bit encoding gives the encoded value.
pub proof fn lemma_be16_roundtrip(x: u16, s: Seq<u8>, at: int)
    requires
        0 <= at,
        at + 2 <= s.len(),
        s.subrange(at, at + 2) == be16(x),
    ensures
        read_be16(s, at) == x,
{
    let b0 = s[at];
    let b1 = s[at + 1];
    assert(b0 == s.subrange(at, at + 2)[0]);
    assert(b1 == s.subrange(at, at + 2)[1]);
    assert(b0 == (x >> 8u16) as u8 && b1 == x as u8 ==> ((b0 as u16) << 8u16) | (b1 as u16) == x)
        by (bit_vector);
}

/// Reading back a 32-bit encoding gives the encoded value.
pub proof fn lemma_be32_roundtrip(x: u32, s: Seq<u8>, at: int)
    requires
        0 <= at,
        at + 4 <= s.len(),
        s.subrange(at, at + 4) == be32(x),
    ensures
        read_be32(s, at) == x,
{
    let t = s.subrange(at, at + 4);
    let b0 = s[at];
    let b1 = s[at + 1];
    let b2 = s[at + 2];
    let b3 = s[at + 3];
    assert(b0 == t[0] && b1 == t[1] && b2 == t[2] && b3 == t[3]);
    assert(b0 == (x >> 24u32) as u8 && b1 == (x >> 16u32) as u8 && b2 == (x >> 8u32) as u8 && b3
        == x as u8 ==> ((b0 as u32) << 24u32) | ((b1 as u32) << 16u32) | ((b2 as u32) << 8u32) | (
    b3 as u32) == x) by (bit_vector);
}

/// Reading back a 64-bit encoding gives the encoded value.
pub proof fn lemma_be64_roundtrip(x: u64, s: Seq<u8>, at: int)
    requires
        0 <= at,
        at + 8 <= s.len(),
        s.subrange(at, at + 8) == be64(x),
    ensures
        read_be64(s, at) == x,
{
    let t = s.subrange(at, at + 8);
    let b0 = s[at];
    let b1 = s[at + 1];
    let b2 = s[at + 2];
    let b3 = s[at + 3];
    let b4 = s[at + 4];
    let b5 = s[at + 5];
    let b6 = s[at + 6];
    let b7 = s[at + 7];
    assert(b0 == t[0] && b1 == t[1] && b2 == t[2] && b3 == t[3]);
    assert(b4 == t[4] && b5 == t[5] && b6 == t[6] && b7 == t[7]);
    assert(b0 == (x >> 56u64) as u8 && b1 == (x >> 48u64) as u8 && b2 == (x >> 40u64) as u8 && b3
        == (x >> 32u64) as u8 && b4 == (x >> 24u64) as u8 && b5 == (x >> 16u64) as u8 && b6 == (x
        >> 8u64) as u8 && b7 == x as u8 ==> ((b0 as u64) << 56u64) | ((b1 as u64) << 48u64) | ((
    b2 as u64) << 40u64) | ((b3 as u64) << 32u64) | ((b4 as u64) << 24u64) | ((b5 as u64)
        << 16u64) | ((b6 as u64) << 8u64) | (b7 as u64) == x) by (bit_vector);
}

/// The encoding of a 16-bit value is its base-256 digits, most significant
/// first.
pub proof fn lemma_be16_digits(x: u16)
    ensures
        be16(x).len() == 2,
        be16(x)[0] as int == x as int / 0x100,
        be16(x)[1] as int == x as int % 0x100,
{
    assert((x >> 8u16) as u8 == x / 0x100) by (bit_vector);
    assert(x as u8 == x % 0x100) by (bit_vector);
}

/// The encoding of a 32-bit value is its base-256 digits, most significant
/// first.
pub proof fn lemma_be32_digits(x: u32)
    ensures
        be32(x).len() == 4,
        be32(x)[0] as int == x as int / 0x100_0000,
        be32(x)[1] as int == (x as int / 0x1_0000) % 0x100,
        be32(x)[2] as int == (x as int / 0x100) % 0x100,
        be32(x)[3] as int == x as int % 0x100,
{
    assert((x >> 24u32) as u8 == x / 0x100_0000) by (bit_vector);
    assert((x >> 16u32) as u8 == (x / 0x1_0000) % 0x100) by (bit_vector);
    assert((x >> 8u32) as u8 == (x / 0x100) % 0x100) by (bit_vector);
    assert(x as u8 == x % 0x100) by (bit_vector);
}

/// The encoding of a 64-bit value is its base-256 digits, most significant
/// first.
pub proof fn lemma_be64_digits(x: u64)
    ensures
        be64(x).len() == 8,
        be64(x)[0] as int == x as int / 0x100_0000_0000_0000,
        be64(x)[1] as int == (x as int / 0x1_0000_0000_0000) % 0x100,
        be64(x)[2] as int == (x as int / 0x100_0000_0000) % 0x100,
        be64(x)[3] as int == (x as int / 0x1_0000_0000) % 0x100,
        be64(x)[4] as int == (x as int / 0x100_0000) % 0x100,
        be64(x)[5] as int == (x as int / 0x1_0000) % 0x100,
        be64(x)[6] as int == (x as int / 0x100) % 0x100,
        be64(x)[7] as int == x as int % 0x100,
{
    assert((x >> 56u64) as u8 == x / 0x100_0000_0000_0000) by (bit_vector);
    assert((x >> 48u64) as u8 == (x / 0x1_0000_0000_0000) % 0x100) by (bit_vector);
    assert((x >> 40u64) as u8 == (x / 0x100_0000_0000) % 0x100) by (bit_vector);
    assert((x >> 32u64) as u8 == (x / 0x1_0000_0000) % 0x100) by (bit_vector);
    assert((x >> 24u64) as u8 == (x / 0x100_0000) % 0x100) by (bit_vector);
    assert((x >> 16u64) as u8 == (x / 0x1_0000) % 0x100) by (bit_vector);
    assert((x >> 8u64) as u8 == (x / 0x100) % 0x100) by (bit_vector);
    assert(x as u8 == x % 0x100) by (bit_vector);
}

/// Reading a 16-bit value weighs each byte by its position, most significant
/// first.
pub proof fn lemma_read_be16_positional(s: Seq<u8>, at: int)
    requires
        0 <= at,
        at + 2 <= s.len(),
    ensures
        read_be16(s, at) as int == s[at] as int * 0x100 + s[at + 1] as int,
{
    let b0 = s[at];
    let b1 = s[at + 1];
    assert(((b0 as u16) << 8u16) | (b1 as u16) == (b0 as u16) * 0x100 + (b1 as u16)) by (bit_vector);
}

/// Reading a 32-bit value weighs each byte by its position, most significant
/// first.
pub proof fn lemma_read_be32_positional(s: Seq<u8>, at: int)
    requires
        0 <= at,
        at + 4 <= s.len(),
    ensures
        read_be32(s, at) as int == s[at] as int * 0x100_0000 + s[at + 1] as int * 0x1_0000
            + s[at + 2] as int * 0x100 + s[at + 3] as int,
{
    let b0 = s[at];
    let b1 = s[at + 1];
    let b2 = s[at + 2];
    let b3 = s[at + 3];
    assert(((b0 as u32) << 24u32) | ((b1 as u32) << 16u32) | ((b2 as u32) << 8u32) | (b3 as u32)
        == (b0 as u32) * 0x100_0000 + (b1 as u32) * 0x1_0000 + (b2 as u32) * 0x100 + (b3 as u32))
        by (bit_vector);
}

/// Reading a 64-bit value weighs each byte by its position, most significant
/// first.
pub proof fn lemma_read_be64_positional(s: Seq<u8>, at: int)
    requires
        0 <= at,
        at + 8 <= s.len(),
    ensures
        read_be64(s, at) as int == s[at] as int * 0x100_0000_0000_0000 + s[at + 1] as int
            * 0x1_0000_0000_0000 + s[at + 2] as int * 0x100_0000_0000 + s[at + 3] as int
            * 0x1_0000_0000 + s[at + 4] as int * 0x100_0000 + s[at + 5] as int * 0x1_0000 + s[at
            + 6] as int * 0x100 + s[at + 7] as int,
{
    let b0 = s[at];
    let b1 = s[at + 1];
    let b2 = s[at + 2];
    let b3 = s[at + 3];
    let b4 = s[at + 4];
    let b5 = s[at + 5];
    let b6 = s[at + 6];
    let b7 = s[at + 7];
    assert(((b0 as u64) << 56u64) | ((b1 as u64) << 48u64) | ((b2 as u64) << 40u64) | ((b3 as u64)
        << 32u64) | ((b4 as u64) << 24u64) | ((b5 as u64) << 16u64) | ((b6 as u64) << 8u64) | (
    b7 as u64) == (b0 as u64) * 0x100_0000_0000_0000 + (b1 as u64) * 0x1_0000_0000_0000 + (
    b2 as u64) * 0x100_0000_0000 + (b3 as u64) * 0x1_0000_0000 + (b4 as u64) * 0x100_0000 + (
    b5 as u64) * 0x1_0000 + (b6 as u64) * 0x100 + (b7 as u64)) by (bit_vector);
}

/// Appends every byte of `src` to `out`.
pub fn append_bytes(out: &mut Vec<u8>, src: &[u8])
    ensures
        final(out)@ == old(out)@ + src@,
{
    let ghost start = out@;
    let n = src.len();
    for i in 0..n
        invariant
            n == src@.len(),
            out@ == start + src@.subrange(0, i as int),
    {
        out.push(src[i]);
        assert(src@.subrange(0, i + 1) == src@.subrange(0, i as int).push(src@[i as int]));
    }
    assert(src@.subrange(0, n as int) == src@);
}

/// Appends the big-endian encoding of `x`.
pub fn push_be16(out: &mut Vec<u8>, x: u16)
    ensures
        final(out)@ == old(out)@ + be16(x),
{
    out.push((x >> 8u16) as u8);
    out.push(x as u8);
}

/// Appends the big-endian encoding of `x`.
pub fn push_be32(out: &mut Vec<u8>, x: u32)
    ensures
        final(out)@ == old(out)@ + be32(x),
{
    out.push((x >> 24u32) as u8);
    out.push((x >> 16u32) as u8);
    out.push((x >> 8u32) as u8);
    out.push(x as u8);
}

/// Appends the big-endian encoding of `x`.
pub fn push_be64(out: &mut Vec<u8>, x: u64)
    ensures
        final(out)@ == old(out)@ + be64(x),
{
    out.push((x >> 56u64) as u8);
    out.push((x >> 48u64) as u8);
    out.push((x >> 40u64) as u8);
    out.push((x >> 32u64) as u8);
    out.push((x >> 24u64) as u8);
    out.push((x >> 16u64) as u8);
    out.push((x >> 8u64) as u8);
    out.push(x as u8);
}

/// The 16-bit big-endian value at `bytes[at..at + 2]`.
pub fn get_be16(bytes: &[u8], at: usize) -> (r: u16)
    requires
        at + 2 <= bytes@.len(),
    ensures
        r == read_be16(bytes@, at as int),
{
    ((bytes[at] as u16) << 8u16) | (bytes[at + 1] as u16)
}

/// The 32-bit big-endian value at `bytes[at..at + 4]`.
pub fn get_be32(bytes: &[u8], at: usize) -> (r: u32)
    requires
        at + 4 <= bytes@.len(),
    ensures
        r == read_be32(bytes@, at as int),
{
    ((bytes[at] as u32) << 24u32) | ((bytes[at + 1] as u32) << 16u32) | ((bytes[at + 2] as u32)
        << 8u32) | (bytes[at + 3] as u32)
}

/// The 64-bit big-endian value at `bytes[at..at + 8]`.
pub fn get_be64(bytes: &[u8], at: usize) -> (r: u64)
    requires
        at + 8 <= bytes@.len(),
    ensures
        r == read_be64(bytes@, at as int),
{
    ((bytes[at] as u64) << 56u64) | ((bytes[at + 1] as u64) << 48u64) | ((bytes[at + 2] as u64)
        << 40u64) | ((bytes[at + 3] as u64) << 32u64) | ((bytes[at + 4] as u64) << 24u64) | ((
    bytes[at + 5] as u64) << 16u64) | ((bytes[at + 6] as u64) << 8u64) | (bytes[at + 7] as u64)
}

} // verus!
