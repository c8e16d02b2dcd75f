//! HTTP chunked transfer encoding of a byte stream.

use crate::wire::push_all;
use vstd::prelude::*;

verus! {

/// The upper-case ASCII hex digit of `d` (`d < 16`).
pub open spec fn hex_digit(d: nat) -> u8 {
    if d < 10 {
        (0x30 + d) as u8
    } else {
        (0x41 + d - 10) as u8
    }
}

/// Upper-case hex of `n` without leading zeros (`"0"` for zero).
pub open spec fn hex_upper(n: nat) -> Seq<u8>
    decreases n,
{
    if n < 16 {
        seq![hex_digit(n)]
    } else {
        hex_upper(n / 16) + seq![hex_digit(n % 16)]
    }
}

/// One chunk of chunked transfer encoding: hex length, CRLF, data, CRLF.
/// An empty buffer writes nothing (an empty chunk would end the stream).
pub open spec fn chunk_bytes(data: Seq<u8>) -> Seq<u8> {
    if data.len() == 0 {
        Seq::empty()
    } else {
        hex_upper(data.len()) + seq![0x0Du8, 0x0Au8] + data + seq![0x0Du8, 0x0Au8]
    }
}

/// Formats `n` as upper-case hex without leading zeros.
pub fn hex_upper_bytes(n: usize) -> (h: Vec<u8>)
    ensures
        h@ == hex_upper(n as nat),
    decreases n,
{
    let d = n % 16;
    let digit: u8 = if d < 10 {
        0x30 + d as u8
    } else {
        0x41 + (d - 10) as u8
    };
    if n < 16 {
        let mut h: Vec<u8> = Vec::new();
        h.push(digit);
        assert(h@ =~= hex_upper(n as nat));
        h
    } else {
        let mut h = hex_upper_bytes(n / 16);
        h.push(digit);
        assert(h@ =~= hex_upper(n as nat));
        h
    }
}

/// The chunk that carries `buf` (nothing for an empty buffer).
pub fn chunk_frame(buf: &[u8]) -> (out: Vec<u8>)
    ensures
        out@ == chunk_bytes(buf@),
{
    if buf.len() == 0 {
        return Vec::new();
    }
    let mut out = hex_upper_bytes(buf.len());
    out.push(0x0D);
    out.push(0x0A);
    push_all(&mut out, buf);
    out.push(0x0D);
    out.push(0x0A);
    assert(out@ =~= chunk_bytes(buf@));
    out
}

/// Wraps a byte sink to apply HTTP chunked transfer encoding: every write of
/// a non-empty buffer becomes exactly one chunk.
pub struct ChunkedWriter<W> {
    writer: W,
}

impl<W> ChunkedWriter<W> {
    /// Wraps `writer`.
    pub fn new(writer: W) -> (c: Self)
        ensures
            c.inner() == writer,
    {
        ChunkedWriter { writer }
    }

    /// The wrapped sink.
    pub closed spec fn inner(&self) -> W {
        self.writer
    }

    /// Unwraps the sink.
    pub fn into_inner(self) -> (w: W)
        ensures
            w == self.inner(),
    {
        self.writer
    }
}

impl ChunkedWriter<Vec<u8>> {
    /// Writes `buf` as one chunk (nothing for an empty buffer) and returns
    /// the number of payload bytes accepted: all of them.
    pub fn write(&mut self, buf: &[u8]) -> (n: usize)
        ensures
            n == buf@.len(),
            final(self).inner()@ == old(self).inner()@ + chunk_bytes(buf@),
    {
        if buf.len() == 0 {
            assert(self.writer@ =~= old(self).writer@ + chunk_bytes(buf@));
            return 0;
        }
        let chunk = chunk_frame(buf);
        push_all(&mut self.writer, chunk.as_slice());
        buf.len()
    }

    /// Writes all of `buf` (one chunk, as `write` does).
    pub fn write_all(&mut self, buf: &[u8])
        ensures
            final(self).inner()@ == old(self).inner()@ + chunk_bytes(buf@),
    {
        let _ = self.write(buf);
    }

    /// Nothing is buffered here; flushing leaves the sink unchanged.
    pub fn flush(&mut self)
        ensures
            final(self).inner() == old(self).inner(),
    {
    }
}

} // verus!
