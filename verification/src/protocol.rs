//! Framed TCP packet format with timestamps and sequence numbers.

use crate::wire::{from_le32, from_le64, le32, le64, lemma_le32_roundtrip, lemma_le64_roundtrip, push_all, push_le32, push_le64, read_le32, read_le64};
use vstd::prelude::*;

verus! {

/// Magic bytes identifying a packet: ASCII `TCPS`.
pub const MAGIC: [u8; 4] = [0x54, 0x43, 0x50, 0x53];

/// Microseconds since the UNIX epoch on the wall clock (the `u128` count cut
/// to 64 bits), or `None` when the clock reads earlier than the epoch. Calls
/// `SystemTime::now()` and `duration_since(UNIX_EPOCH)`; nothing is claimed
/// of the value, which is the current time.
#[verifier::external_body]
fn micros_since_epoch() -> (r: Option<u64>) {
    match std::time::SystemTime::now().duration_since(std::time::UNIX_EPOCH) {
        Ok(d) => Some(d.as_micros() as u64),
        Err(_) => None,
    }
}

/// Packet header structure.
#[derive(Debug, Clone, Copy, PartialEq, Eq)]
pub struct PacketHeader {
    /// Magic bytes: "TCPS".
    pub magic: [u8; 4],
    /// Timestamp in microseconds since UNIX epoch.
    pub timestamp_us: u64,
    /// Sequence number (wraps at u32::MAX).
    pub sequence: u32,
    /// Payload size in bytes.
    pub payload_size: u32,
    /// Codec used (0=None, 1=Flac, 2=Opus).
    pub codec: u8,
}

/// The serialized header: magic, then timestamp, sequence and payload size
/// little-endian, then the codec byte.
pub open spec fn header_bytes(h: PacketHeader) -> Seq<u8> {
    h.magic@ + le64(h.timestamp_us) + le32(h.sequence) + le32(h.payload_size) + seq![h.codec]
}

/// What `from_bytes` makes of 21 bytes: `None` unless they open with the magic.
pub open spec fn parse_header(b: Seq<u8>) -> Option<PacketHeader> {
    if b.subrange(0, 4) == MAGIC@ {
        Some(
            PacketHeader {
                magic: MAGIC,
                timestamp_us: from_le64(b.subrange(4, 12)),
                sequence: from_le32(b.subrange(12, 16)),
                payload_size: from_le32(b.subrange(16, 20)),
                codec: b[20],
            },
        )
    } else {
        None
    }
}

impl PacketHeader {
    /// Serialized header length: 4 + 8 + 4 + 4 + 1 bytes.
    pub const SIZE: usize = 21;

    /// A header stamped with the current wall-clock time, as `at_time` makes
    /// it from a reading of the clock.
    pub fn new(sequence: u32, payload_size: u32, codec: u8) -> (h: Self)
        ensures
            h.magic == MAGIC,
            h.sequence == sequence,
            h.payload_size == payload_size,
            h.codec == codec,
    {
        let now = micros_since_epoch();
        PacketHeader::at_time(sequence, payload_size, codec, now)
    }

    /// A header stamped with `since_epoch_us`, the wall clock's microseconds
    /// since the UNIX epoch; a clock that reads before the epoch (`None`)
    /// stamps 0.
    pub fn at_time(sequence: u32, payload_size: u32, codec: u8, since_epoch_us: Option<u64>) -> (h: Self)
        ensures
            h == (PacketHeader {
                magic: MAGIC,
                timestamp_us: match since_epoch_us {
                    Some(t) => t,
                    None => 0,
                },
                sequence,
                payload_size,
                codec,
            }),
    {
        let timestamp_us = match since_epoch_us {
            Some(t) => t,
            None => 0,
        };
        PacketHeader { magic: MAGIC, timestamp_us, sequence, payload_size, codec }
    }

    /// Serializes the header (little-endian fields).
    pub fn to_bytes(&self) -> (b: [u8; 21])
        ensures
            b@ == header_bytes(*self),
    {
        let mut v: Vec<u8> = Vec::new();
        push_all(&mut v, &self.magic);
        push_le64(&mut v, self.timestamp_us);
        push_le32(&mut v, self.sequence);
        push_le32(&mut v, self.payload_size);
        v.push(self.codec);
        assert(v@ =~= header_bytes(*self));
        let b: [u8; 21] = [
            v[0], v[1], v[2], v[3], v[4], v[5], v[6], v[7], v[8], v[9], v[10], v[11], v[12], v[13],
            v[14], v[15], v[16], v[17], v[18], v[19], v[20],
        ];
        assert(b@ =~= v@);
        b
    }

    /// Deserializes a header; `None` unless the bytes open with the magic.
    pub fn from_bytes(bytes: &[u8; 21]) -> (r: Option<Self>)
        ensures
            r == parse_header(bytes@),
    {
        if !(bytes[0] == MAGIC[0] && bytes[1] == MAGIC[1] && bytes[2] == MAGIC[2] && bytes[3]
            == MAGIC[3]) {
            proof {
                if bytes@.subrange(0, 4) == MAGIC@ {
                    assert(bytes@.subrange(0, 4)[0] == bytes@[0]);
                    assert(bytes@.subrange(0, 4)[1] == bytes@[1]);
                    assert(bytes@.subrange(0, 4)[2] == bytes@[2]);
                    assert(bytes@.subrange(0, 4)[3] == bytes@[3]);
                }
            }
            return None;
        }
        assert(bytes@.subrange(0, 4) =~= MAGIC@);
        let s: &[u8] = bytes;
        Some(
            PacketHeader {
                magic: MAGIC,
                timestamp_us: read_le64(s, 4),
                sequence: read_le32(s, 12),
                payload_size: read_le32(s, 16),
                codec: bytes[20],
            },
        )
    }
}

/// A header with the protocol's magic survives serialization unchanged.
pub proof fn lemma_header_roundtrip(h: PacketHeader)
    requires
        h.magic == MAGIC,
    ensures
        header_bytes(h).len() == 21,
        parse_header(header_bytes(h)) == Some(h),
{
    let b = header_bytes(h);
    lemma_le64_roundtrip(h.timestamp_us, Seq::empty());
    lemma_le32_roundtrip(h.sequence, Seq::empty());
    lemma_le32_roundtrip(h.payload_size, Seq::empty());
    assert(b.subrange(0, 4) =~= MAGIC@);
    assert(b.subrange(4, 12) =~= le64(h.timestamp_us));
    assert(b.subrange(12, 16) =~= le32(h.sequence));
    assert(b.subrange(16, 20) =~= le32(h.payload_size));
}

/// Complete packet with header and payload.
pub struct Packet {
    pub header: PacketHeader,
    pub payload: Vec<u8>,
}

impl Packet {
    /// A packet for `payload`, its header stamped with the current time; the
    /// size field is the payload length truncated to 32 bits.
    pub fn new(sequence: u32, payload: Vec<u8>, codec: u8) -> (p: Self)
        ensures
            p.header.magic == MAGIC,
            p.header.sequence == sequence,
            p.header.payload_size == payload@.len() as u32,
            p.header.codec == codec,
            p.payload@ == payload@,
    {
        let payload_size = payload.len() as u32;
        Packet { header: PacketHeader::new(sequence, payload_size, codec), payload }
    }

    /// Serializes the entire packet: header then payload.
    pub fn to_bytes(&self) -> (b: Vec<u8>)
        ensures
            b@ == header_bytes(self.header) + self.payload@,
    {
        let header = self.header.to_bytes();
        let mut packet: Vec<u8> = Vec::new();
        push_all(&mut packet, &header);
        push_all(&mut packet, self.payload.as_slice());
        packet
    }
}

} // verus!
