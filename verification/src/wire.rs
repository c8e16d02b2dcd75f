//! Fixed-width integer <-> byte-sequence encodings used by every wire format
//! of the crate (big-endian for the native UDP protocol, little-endian for
//! the framed TCP protocol and the WAV header).

use vstd::prelude::*;

verus! {

/// Big-endian bytes of a `u16`.
pub open spec fn be16(x: u16) -> Seq<u8> {
    seq![(x >> 8u16) as u8, x as u8]
}

/// Big-endian bytes of a `u32`.
pub open spec fn be32(x: u32) -> Seq<u8> {
    seq![(x >> 24u32) as u8, (x >> 16u32) as u8, (x >> 8u32) as u8, x as u8]
}

/// Big-endian bytes of a `u64`.
pub open spec fn be64(x: u64) -> Seq<u8> {
    seq![
        (x >> 56u64) as u8, (x >> 48u64) as u8, (x >> 40u64) as u8, (x >> 32u64) as u8,
        (x >> 24u64) as u8, (x >> 16u64) as u8, (x >> 8u64) as u8, x as u8,
    ]
}

/// Little-endian bytes of a `u16`.
pub open spec fn le16(x: u16) -> Seq<u8> {
    seq![x as u8, (x >> 8u16) as u8]
}

/// Little-endian bytes of a `u32`.
pub open spec fn le32(x: u32) -> Seq<u8> {
    seq![x as u8, (x >> 8u32) as u8, (x >> 16u32) as u8, (x >> 24u32) as u8]
}

/// Little-endian bytes of a `u64`.
pub open spec fn le64(x: u64) -> Seq<u8> {
    seq![
        x as u8, (x >> 8u64) as u8, (x >> 16u64) as u8, (x >> 24u64) as u8,
        (x >> 32u64) as u8, (x >> 40u64) as u8, (x >> 48u64) as u8, (x >> 56u64) as u8,
    ]
}

/// The `u16` whose big-endian bytes are `s[0..2]`.
pub open spec fn from_be16(s: Seq<u8>) -> u16 {
    ((s[0] as u16) << 8u16) | (s[1] as u16)
}

/// The `u32` whose big-endian bytes are `s[0..4]`.
pub open spec fn from_be32(s: Seq<u8>) -> u32 {
    ((s[0] as u32) << 24u32) | ((s[1] as u32) << 16u32) | ((s[2] as u32) << 8u32) | (s[3] as u32)
}

/// The `u64` whose big-endian bytes are `s[0..8]`.
pub open spec fn from_be64(s: Seq<u8>) -> u64 {
    ((s[0] as u64) << 56u64) | ((s[1] as u64) << 48u64) | ((s[2] as u64) << 40u64) | ((s[3] as u64)
        << 32u64) | ((s[4] as u64) << 24u64) | ((s[5] as u64) << 16u64) | ((s[6] as u64) << 8u64) | (
    s[7] as u64)
}

/// The `u16` whose little-endian bytes are `s[0..2]`.
pub open spec fn from_le16(s: Seq<u8>) -> u16 {
    (s[0] as u16) | ((s[1] as u16) << 8u16)
}

/// The `u32` whose little-endian bytes are `s[0..4]`.
pub open spec fn from_le32(s: Seq<u8>) -> u32 {
    (s[0] as u32) | ((s[1] as u32) << 8u32) | ((s[2] as u32) << 16u32) | ((s[3] as u32) << 24u32)
}

/// The `u64` whose little-endian bytes are `s[0..8]`.
pub open spec fn from_le64(s: Seq<u8>) -> u64 {
    (s[0] as u64) | ((s[1] as u64) << 8u64) | ((s[2] as u64) << 16u64) | ((s[3] as u64) << 24u64) | (
    (s[4] as u64) << 32u64) | ((s[5] as u64) << 40u64) | ((s[6] as u64) << 48u64) | ((s[7] as u64)
        << 56u64)
}

/// Decoding the big-endian bytes of a `u16` gives it back, and every pair of
/// bytes is the encoding of the value it decodes to.
pub proof fn lemma_be16_roundtrip(x: u16, s: Seq<u8>)
    ensures
        from_be16(be16(x)) == x,
        s.len() == 2 ==> be16(from_be16(s)) == s,
{
    let b = be16(x);
    let (b0, b1) = (b[0], b[1]);
    assert(b0 == (x >> 8u16) as u8 && b1 == x as u8);
    assert((((((x >> 8u16) as u8) as u16) << 8u16) | ((x as u8) as u16)) == x) by (bit_vector);
    if s.len() == 2 {
        let (s0, s1) = (s[0], s[1]);
        let v = ((s0 as u16) << 8u16) | (s1 as u16);
        assert(((v >> 8u16) as u8) == s0 && (v as u8) == s1) by (bit_vector)
            requires v == ((s0 as u16) << 8u16) | (s1 as u16);
        assert(be16(from_be16(s)) =~= s);
    }
}

/// Decoding the big-endian bytes of a `u32` gives it back, and every four
/// bytes are the encoding of the value they decode to.
pub proof fn lemma_be32_roundtrip(x: u32, s: Seq<u8>)
    ensures
        from_be32(be32(x)) == x,
        s.len() == 4 ==> be32(from_be32(s)) == s,
{
    assert((((((x >> 24u32) as u8) as u32) << 24u32) | ((((x >> 16u32) as u8) as u32) << 16u32) | ((
    ((x >> 8u32) as u8) as u32) << 8u32) | ((x as u8) as u32)) == x) by (bit_vector);
    if s.len() == 4 {
        let (s0, s1, s2, s3) = (s[0], s[1], s[2], s[3]);
        let v = ((s0 as u32) << 24u32) | ((s1 as u32) << 16u32) | ((s2 as u32) << 8u32) | (s3 as u32);
        assert(((v >> 24u32) as u8) == s0 && ((v >> 16u32) as u8) == s1 && ((v >> 8u32) as u8) == s2
            && (v as u8) == s3) by (bit_vector)
            requires
                v == ((s0 as u32) << 24u32) | ((s1 as u32) << 16u32) | ((s2 as u32) << 8u32) | (
                s3 as u32),
        ;
        assert(be32(from_be32(s)) =~= s);
    }
}

/// Decoding the big-endian bytes of a `u64` gives it back, and every eight
/// bytes are the encoding of the value they decode to.
pub proof fn lemma_be64_roundtrip(x: u64, s: Seq<u8>)
    ensures
        from_be64(be64(x)) == x,
        s.len() == 8 ==> be64(from_be64(s)) == s,
{
    assert((((((x >> 56u64) as u8) as u64) << 56u64) | ((((x >> 48u64) as u8) as u64) << 48u64) | ((
    ((x >> 40u64) as u8) as u64) << 40u64) | ((((x >> 32u64) as u8) as u64) << 32u64) | ((((x
        >> 24u64) as u8) as u64) << 24u64) | ((((x >> 16u64) as u8) as u64) << 16u64) | ((((x
        >> 8u64) as u8) as u64) << 8u64) | ((x as u8) as u64)) == x) by (bit_vector);
    if s.len() == 8 {
        let (s0, s1, s2, s3, s4, s5, s6, s7) = (s[0], s[1], s[2], s[3], s[4], s[5], s[6], s[7]);
        let v = ((s0 as u64) << 56u64) | ((s1 as u64) << 48u64) | ((s2 as u64) << 40u64) | ((
        s3 as u64) << 32u64) | ((s4 as u64) << 24u64) | ((s5 as u64) << 16u64) | ((s6 as u64)
            << 8u64) | (s7 as u64);
        assert(((v >> 56u64) as u8) == s0 && ((v >> 48u64) as u8) == s1 && ((v >> 40u64) as u8)
            == s2 && ((v >> 32u64) as u8) == s3 && ((v >> 24u64) as u8) == s4 && ((v >> 16u64)
            as u8) == s5 && ((v >> 8u64) as u8) == s6 && (v as u8) == s7) by (bit_vector)
            requires
                v == ((s0 as u64) << 56u64) | ((s1 as u64) << 48u64) | ((s2 as u64) << 40u64) | ((
                s3 as u64) << 32u64) | ((s4 as u64) << 24u64) | ((s5 as u64) << 16u64) | ((
                s6 as u64) << 8u64) | (s7 as u64),
        ;
        assert(be64(from_be64(s)) =~= s);
    }
}

/// Decoding the little-endian bytes of a `u16` gives it back, and every pair
/// of bytes is the encoding of the value it decodes to.
pub proof fn lemma_le16_roundtrip(x: u16, s: Seq<u8>)
    ensures
        from_le16(le16(x)) == x,
        s.len() == 2 ==> le16(from_le16(s)) == s,
{
    assert((((x as u8) as u16) | ((((x >> 8u16) as u8) as u16) << 8u16)) == x) by (bit_vector);
    if s.len() == 2 {
        let (s0, s1) = (s[0], s[1]);
        let v = (s0 as u16) | ((s1 as u16) << 8u16);
        assert((v as u8) == s0 && ((v >> 8u16) as u8) == s1) by (bit_vector)
            requires v == (s0 as u16) | ((s1 as u16) << 8u16);
        assert(le16(from_le16(s)) =~= s);
    }
}

/// Decoding the little-endian bytes of a `u32` gives it back, and every four
/// bytes are the encoding of the value they decode to.
pub proof fn lemma_le32_roundtrip(x: u32, s: Seq<u8>)
    ensures
        from_le32(le32(x)) == x,
        s.len() == 4 ==> le32(from_le32(s)) == s,
{
    assert((((x as u8) as u32) | ((((x >> 8u32) as u8) as u32) << 8u32) | ((((x >> 16u32) as u8)
        as u32) << 16u32) | ((((x >> 24u32) as u8) as u32) << 24u32)) == x) by (bit_vector);
    if s.len() == 4 {
        let (s0, s1, s2, s3) = (s[0], s[1], s[2], s[3]);
        let v = (s0 as u32) | ((s1 as u32) << 8u32) | ((s2 as u32) << 16u32) | ((s3 as u32) << 24u32);
        assert((v as u8) == s0 && ((v >> 8u32) as u8) == s1 && ((v >> 16u32) as u8) == s2 && ((v
            >> 24u32) as u8) == s3) by (bit_vector)
            requires
                v == (s0 as u32) | ((s1 as u32) << 8u32) | ((s2 as u32) << 16u32) | ((s3 as u32)
                    << 24u32),
        ;
        assert(le32(from_le32(s)) =~= s);
    }
}

/// Decoding the little-endian bytes of a `u64` gives it back, and every
/// eight bytes are the encoding of the value they decode to.
pub proof fn lemma_le64_roundtrip(x: u64, s: Seq<u8>)
    ensures
        from_le64(le64(x)) == x,
        s.len() == 8 ==> le64(from_le64(s)) == s,
{
    assert((((x as u8) as u64) | ((((x >> 8u64) as u8) as u64) << 8u64) | ((((x >> 16u64) as u8)
        as u64) << 16u64) | ((((x >> 24u64) as u8) as u64) << 24u64) | ((((x >> 32u64) as u8)
        as u64) << 32u64) | ((((x >> 40u64) as u8) as u64) << 40u64) | ((((x >> 48u64) as u8)
        as u64) << 48u64) | ((((x >> 56u64) as u8) as u64) << 56u64)) == x) by (bit_vector);
    if s.len() == 8 {
        let (s0, s1, s2, s3, s4, s5, s6, s7) = (s[0], s[1], s[2], s[3], s[4], s[5], s[6], s[7]);
        let v = (s0 as u64) | ((s1 as u64) << 8u64) | ((s2 as u64) << 16u64) | ((s3 as u64)
            << 24u64) | ((s4 as u64) << 32u64) | ((s5 as u64) << 40u64) | ((s6 as u64) << 48u64) | (
        (s7 as u64) << 56u64);
        assert((v as u8) == s0 && ((v >> 8u64) as u8) == s1 && ((v >> 16u64) as u8) == s2 && ((v
            >> 24u64) as u8) == s3 && ((v >> 32u64) as u8) == s4 && ((v >> 40u64) as u8) == s5
            && ((v >> 48u64) as u8) == s6 && ((v >> 56u64) as u8) == s7) by (bit_vector)
            requires
                v == (s0 as u64) | ((s1 as u64) << 8u64) | ((s2 as u64) << 16u64) | ((s3 as u64)
                    << 24u64) | ((s4 as u64) << 32u64) | ((s5 as u64) << 40u64) | ((s6 as u64)
                    << 48u64) | ((s7 as u64) << 56u64),
        ;
        assert(le64(from_le64(s)) =~= s);
    }
}

/// Appends the big-endian bytes of `x`.
pub fn push_be16(out: &mut Vec<u8>, x: u16)
    ensures
        final(out)@ == old(out)@ + be16(x),
{
    out.push((x >> 8) as u8);
    out.push(x as u8);
    assert(out@ =~= old(out)@ + be16(x));
}

/// Appends the big-endian bytes of `x`.
pub fn push_be32(out: &mut Vec<u8>, x: u32)
    ensures
        final(out)@ == old(out)@ + be32(x),
{
    out.push((x >> 24) as u8);
    out.push((x >> 16) as u8);
    out.push((x >> 8) as u8);
    out.push(x as u8);
    assert(out@ =~= old(out)@ + be32(x));
}

/// Appends the big-endian bytes of `x`.
pub fn push_be64(out: &mut Vec<u8>, x: u64)
    ensures
        final(out)@ == old(out)@ + be64(x),
{
    out.push((x >> 56) as u8);
    out.push((x >> 48) as u8);
    out.push((x >> 40) as u8);
    out.push((x >> 32) as u8);
    out.push((x >> 24) as u8);
    out.push((x >> 16) as u8);
    out.push((x >> 8) as u8);
    out.push(x as u8);
    assert(out@ =~= old(out)@ + be64(x));
}

/// Appends the little-endian bytes of `x`.
pub fn push_le16(out: &mut Vec<u8>, x: u16)
    ensures
        final(out)@ == old(out)@ + le16(x),
{
    out.push(x as u8);
    out.push((x >> 8) as u8);
    assert(out@ =~= old(out)@ + le16(x));
}

/// Appends the little-endian bytes of `x`.
pub fn push_le32(out: &mut Vec<u8>, x: u32)
    ensures
        final(out)@ == old(out)@ + le32(x),
{
    out.push(x as u8);
    out.push((x >> 8) as u8);
    out.push((x >> 16) as u8);
    out.push((x >> 24) as u8);
    assert(out@ =~= old(out)@ + le32(x));
}

/// Appends the little-endian bytes of `x`.
pub fn push_le64(out: &mut Vec<u8>, x: u64)
    ensures
        final(out)@ == old(out)@ + le64(x),
{
    out.push(x as u8);
    out.push((x >> 8) as u8);
    out.push((x >> 16) as u8);
    out.push((x >> 24) as u8);
    out.push((x >> 32) as u8);
    out.push((x >> 40) as u8);
    out.push((x >> 48) as u8);
    out.push((x >> 56) as u8);
    assert(out@ =~= old(out)@ + le64(x));
}

/// Appends every byte of `bytes`.
pub fn push_all(out: &mut Vec<u8>, bytes: &[u8])
    ensures
        final(out)@ == old(out)@ + bytes@,
{
    let ghost start = out@;
    let n = bytes.len();
    let mut i: usize = 0;
    while i < n
        invariant
            n == bytes@.len(),
            i <= n,
            out@ == start + bytes@.subrange(0, i as int),
        decreases n - i,
    {
        out.push(bytes[i]);
        i = i + 1;
        assert(out@ =~= start + bytes@.subrange(0, i as int));
    }
    assert(bytes@.subrange(0, n as int) =~= bytes@);
}

/// Reads the big-endian `u16` at `b[at..at + 2]`.
pub fn read_be16(b: &[u8], at: usize) -> (r: u16)
    requires
        at + 2 <= b@.len(),
    ensures
        r == from_be16(b@.subrange(at as int, at + 2)),
{
    ((b[at] as u16) << 8) | (b[at + 1] as u16)
}

/// Reads the big-endian `u32` at `b[at..at + 4]`.
pub fn read_be32(b: &[u8], at: usize) -> (r: u32)
    requires
        at + 4 <= b@.len(),
    ensures
        r == from_be32(b@.subrange(at as int, at + 4)),
{
    ((b[at] as u32) << 24) | ((b[at + 1] as u32) << 16) | ((b[at + 2] as u32) << 8) | (b[at
        + 3] as u32)
}

/// Reads the big-endian `u64` at `b[at..at + 8]`.
pub fn read_be64(b: &[u8], at: usize) -> (r: u64)
    requires
        at + 8 <= b@.len(),
    ensures
        r == from_be64(b@.subrange(at as int, at + 8)),
{
    ((b[at] as u64) << 56) | ((b[at + 1] as u64) << 48) | ((b[at + 2] as u64) << 40) | ((b[at
        + 3] as u64) << 32) | ((b[at + 4] as u64) << 24) | ((b[at + 5] as u64) << 16) | ((b[at
        + 6] as u64) << 8) | (b[at + 7] as u64)
}

/// Reads the little-endian `u16` at `b[at..at + 2]`.
pub fn read_le16(b: &[u8], at: usize) -> (r: u16)
    requires
        at + 2 <= b@.len(),
    ensures
        r == from_le16(b@.subrange(at as int, at + 2)),
{
    (b[at] as u16) | ((b[at + 1] as u16) << 8)
}

/// Reads the little-endian `u32` at `b[at..at + 4]`.
pub fn read_le32(b: &[u8], at: usize) -> (r: u32)
    requires
        at + 4 <= b@.len(),
    ensures
        r == from_le32(b@.subrange(at as int, at + 4)),
{
    (b[at] as u32) | ((b[at + 1] as u32) << 8) | ((b[at + 2] as u32) << 16) | ((b[at + 3] as u32)
        << 24)
}

/// Reads the little-endian `u64` at `b[at..at + 8]`.
pub fn read_le64(b: &[u8], at: usize) -> (r: u64)
    requires
        at + 8 <= b@.len(),
    ensures
        r == from_le64(b@.subrange(at as int, at + 8)),
{
    (b[at] as u64) | ((b[at + 1] as u64) << 8) | ((b[at + 2] as u64) << 16) | ((b[at + 3] as u64)
        << 24) | ((b[at + 4] as u64) << 32) | ((b[at + 5] as u64) << 40) | ((b[at + 6] as u64)
        << 48) | ((b[at + 7] as u64) << 56)
}

} // verus!
