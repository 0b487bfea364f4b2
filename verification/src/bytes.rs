//! Fixed-width integer encodings used by the stable-storage records.
use vstd::prelude::*;

verus! {

/// Big-endian bytes of a `u16`.
pub open spec fn u16_be(x: u16) -> Seq<u8> {
    seq![(x >> 8u16) as u8, x as u8]
}

/// Big-endian bytes of a `u32`.
pub open spec fn u32_be(x: u32) -> Seq<u8> {
    seq![(x >> 24u32) as u8, (x >> 16u32) as u8, (x >> 8u32) as u8, x as u8]
}

/// Big-endian bytes of a `u64`.
pub open spec fn u64_be(x: u64) -> Seq<u8> {
    seq![
        (x >> 56u64) as u8,
        (x >> 48u64) as u8,
        (x >> 40u64) as u8,
        (x >> 32u64) as u8,
        (x >> 24u64) as u8,
        (x >> 16u64) as u8,
        (x >> 8u64) as u8,
        x as u8,
    ]
}

/// Little-endian bytes of a `u64`.
pub open spec fn u64_le(x: u64) -> Seq<u8> {
    seq![
        x as u8,
        (x >> 8u64) as u8,
        (x >> 16u64) as u8,
        (x >> 24u64) as u8,
        (x >> 32u64) as u8,
        (x >> 40u64) as u8,
        (x >> 48u64) as u8,
        (x >> 56u64) as u8,
    ]
}

/// The `u16` whose big-endian bytes are `b0, b1`.
pub open spec fn be_u16(b0: u8, b1: u8) -> u16 {
    ((b0 as u16) << 8u16) | (b1 as u16)
}

/// The `u32` whose big-endian bytes are `b0, b1, b2, b3`.
pub open spec fn be_u32(b0: u8, b1: u8, b2: u8, b3: u8) -> u32 {
    ((b0 as u32) << 24u32) | ((b1 as u32) << 16u32) | ((b2 as u32) << 8u32) | (b3 as u32)
}

/// The `u64` whose most significant byte is `b0` and least significant byte is `b7`.
pub open spec fn bytes_to_u64(b0: u8, b1: u8, b2: u8, b3: u8, b4: u8, b5: u8, b6: u8, b7: u8) -> u64 {
    ((b0 as u64) << 56u64) | ((b1 as u64) << 48u64) | ((b2 as u64) << 40u64) | ((b3 as u64)
        << 32u64) | ((b4 as u64) << 24u64) | ((b5 as u64) << 16u64) | ((b6 as u64) << 8u64) | (
    b7 as u64)
}

/// The `u64` read big-endian from `s[at..at + 8]`.
pub open spec fn read_u64_be(s: Seq<u8>, at: int) -> u64 {
    bytes_to_u64(s[at], s[at + 1], s[at + 2], s[at + 3], s[at + 4], s[at + 5], s[at + 6], s[at + 7])
}

/// The `u64` read little-endian from `s[at..at + 8]`.
pub open spec fn read_u64_le(s: Seq<u8>, at: int) -> u64 {
    bytes_to_u64(s[at + 7], s[at + 6], s[at + 5], s[at + 4], s[at + 3], s[at + 2], s[at + 1], s[at])
}

/// Reading back the big-endian bytes of `x` gives `x`.
pub proof fn lemma_u64_be_roundtrip(x: u64)
    ensures
        read_u64_be(u64_be(x), 0) == x,
{
    let s = u64_be(x);
    assert(bytes_to_u64(
        (x >> 56u64) as u8,
        (x >> 48u64) as u8,
        (x >> 40u64) as u8,
        (x >> 32u64) as u8,
        (x >> 24u64) as u8,
        (x >> 16u64) as u8,
        (x >> 8u64) as u8,
        x as u8,
    ) == x) by (bit_vector);
}

/// Reading back the little-endian bytes of `x` gives `x`.
pub proof fn lemma_u64_le_roundtrip(x: u64)
    ensures
        read_u64_le(u64_le(x), 0) == x,
{
    assert(bytes_to_u64(
        (x >> 56u64) as u8,
        (x >> 48u64) as u8,
        (x >> 40u64) as u8,
        (x >> 32u64) as u8,
        (x >> 24u64) as u8,
        (x >> 16u64) as u8,
        (x >> 8u64) as u8,
        x as u8,
    ) == x) by (bit_vector);
}

/// Reading back the big-endian bytes of `x` gives `x`.
pub proof fn lemma_u16_be_roundtrip(x: u16)
    ensures
        be_u16(u16_be(x)[0], u16_be(x)[1]) == x,
{
    assert((((((x >> 8u16) as u8) as u16) << 8u16) | ((x as u8) as u16)) == x) by (bit_vector);
}

/// Reading back the big-endian bytes of `x` gives `x`.
pub proof fn lemma_u32_be_roundtrip(x: u32)
    ensures
        be_u32(u32_be(x)[0], u32_be(x)[1], u32_be(x)[2], u32_be(x)[3]) == x,
{
    assert((((((x >> 24u32) as u8) as u32) << 24u32) | ((((x >> 16u32) as u8) as u32) << 16u32) | ((((x
        >> 8u32) as u8) as u32) << 8u32) | ((x as u8) as u32)) == x) by (bit_vector);
}

/// Eight bytes read as a `u64` and written back give the same bytes.
pub proof fn lemma_bytes_u64_be_roundtrip(b0: u8, b1: u8, b2: u8, b3: u8, b4: u8, b5: u8, b6: u8, b7: u8)
    ensures
        u64_be(bytes_to_u64(b0, b1, b2, b3, b4, b5, b6, b7)) == seq![b0, b1, b2, b3, b4, b5, b6, b7],
{
    let x = bytes_to_u64(b0, b1, b2, b3, b4, b5, b6, b7);
    assert(((x >> 56u64) as u8) == b0 && ((x >> 48u64) as u8) == b1 && ((x >> 40u64) as u8) == b2
        && ((x >> 32u64) as u8) == b3 && ((x >> 24u64) as u8) == b4 && ((x >> 16u64) as u8) == b5
        && ((x >> 8u64) as u8) == b6 && (x as u8) == b7) by (bit_vector)
        requires
            x == ((b0 as u64) << 56u64) | ((b1 as u64) << 48u64) | ((b2 as u64) << 40u64) | ((
            b3 as u64) << 32u64) | ((b4 as u64) << 24u64) | ((b5 as u64) << 16u64) | ((b6 as u64)
                << 8u64) | (b7 as u64),
    ;
    assert(u64_be(x) =~= seq![b0, b1, b2, b3, b4, b5, b6, b7]);
}

/// Two bytes read as a `u16` and written back give the same bytes.
pub proof fn lemma_bytes_u16_be_roundtrip(b0: u8, b1: u8)
    ensures
        u16_be(be_u16(b0, b1)) == seq![b0, b1],
{
    let x = be_u16(b0, b1);
    assert(((x >> 8u16) as u8) == b0 && (x as u8) == b1) by (bit_vector)
        requires
            x == ((b0 as u16) << 8u16) | (b1 as u16),
    ;
    assert(u16_be(x) =~= seq![b0, b1]);
}

/// Appends the big-endian bytes of `x` to `out`.
pub fn push_u64_be(out: &mut Vec<u8>, x: u64)
    ensures
        final(out)@ == old(out)@ + u64_be(x),
{
    out.push((x >> 56u64) as u8);
    out.push((x >> 48u64) as u8);
    out.push((x >> 40u64) as u8);
    out.push((x >> 32u64) as u8);
    out.push((x >> 24u64) as u8);
    out.push((x >> 16u64) as u8);
    out.push((x >> 8u64) as u8);
    out.push(x as u8);
    assert(out@ =~= old(out)@ + u64_be(x));
}

/// Appends the little-endian bytes of `x` to `out`.
pub fn push_u64_le(out: &mut Vec<u8>, x: u64)
    ensures
        final(out)@ == old(out)@ + u64_le(x),
{
    out.push(x as u8);
    out.push((x >> 8u64) as u8);
    out.push((x >> 16u64) as u8);
    out.push((x >> 24u64) as u8);
    out.push((x >> 32u64) as u8);
    out.push((x >> 40u64) as u8);
    out.push((x >> 48u64) as u8);
    out.push((x >> 56u64) as u8);
    assert(out@ =~= old(out)@ + u64_le(x));
}

/// Reads a big-endian `u64` from `b[at..at + 8]`.
pub fn get_u64_be(b: &[u8], at: usize) -> (x: u64)
    requires
        at + 8 <= b@.len(),
    ensures
        x == read_u64_be(b@, at as int),
{
    let _n = b.len();
    ((b[at] as u64) << 56u64) | ((b[at + 1] as u64) << 48u64) | ((b[at + 2] as u64) << 40u64) | ((
    b[at + 3] as u64) << 32u64) | ((b[at + 4] as u64) << 24u64) | ((b[at + 5] as u64) << 16u64)
        | ((b[at + 6] as u64) << 8u64) | (b[at + 7] as u64)
}

/// Reads a little-endian `u64` from `b[at..at + 8]`.
pub fn get_u64_le(b: &[u8], at: usize) -> (x: u64)
    requires
        at + 8 <= b@.len(),
    ensures
        x == read_u64_le(b@, at as int),
{
    let _n = b.len();
    ((b[at + 7] as u64) << 56u64) | ((b[at + 6] as u64) << 48u64) | ((b[at + 5] as u64) << 40u64)
        | ((b[at + 4] as u64) << 32u64) | ((b[at + 3] as u64) << 24u64) | ((b[at + 2] as u64)
        << 16u64) | ((b[at + 1] as u64) << 8u64) | (b[at] as u64)
}

} // verus!
