//! Native UDP wire format: audio + handshake frames (pure encode/decode).

use crate::wire::{
    be16, be32, be64, from_be16, from_be32, from_be64, lemma_be16_roundtrip, lemma_be32_roundtrip,
    lemma_be64_roundtrip, push_all, push_be16, push_be32, push_be64, read_be16, read_be32, read_be64,
};
use vstd::prelude::*;

verus! {

/// First magic byte (`'T'`).
pub const MAGIC0: u8 = 0x54;

/// Second magic byte (`'S'`).
pub const MAGIC1: u8 = 0x53;

/// Protocol version carried in every frame.
pub const VERSION: u8 = 1;

/// Frame type of an audio datagram.
pub const TYPE_AUDIO: u8 = 0;

/// Frame type of a SUBSCRIBE datagram.
pub const TYPE_SUBSCRIBE: u8 = 1;

/// Frame type of a STREAM_INFO datagram.
pub const TYPE_STREAM_INFO: u8 = 2;

/// Length of an audio header: magic(2) version(1) type(1) flags(1) seq(8) ts(8).
pub const AUDIO_HEADER_LEN: usize = 21;

/// Length of a SUBSCRIBE frame.
pub const SUBSCRIBE_LEN: usize = 12;

/// Length of a STREAM_INFO frame.
pub const STREAM_INFO_LEN: usize = 19;

/// Audio frame header (payload follows the header in the datagram).
#[derive(Debug, Clone, Copy, PartialEq, Eq, Structural)]
pub struct AudioHeader {
    pub flags: u8,
    pub seq: u64,
    pub ts_us: u64,
}

/// STREAM_INFO: a source announces the stream format to a subscribing sink.
#[derive(Debug, Clone, Copy, PartialEq, Eq, Structural)]
pub struct StreamInfo {
    pub sample_rate: u32,
    pub channels: u16,
    pub salt_a: u64,
    pub flags: u8,
}

/// The four bytes that open every frame of the given type.
pub open spec fn frame_prefix(frame_type: u8) -> Seq<u8> {
    seq![MAGIC0, MAGIC1, VERSION, frame_type]
}

/// Whether `buf` holds at least `min_len` bytes and opens with the prefix of `frame_type`.
pub open spec fn has_prefix(buf: Seq<u8>, frame_type: u8, min_len: int) -> bool {
    &&& buf.len() >= min_len
    &&& buf[0] == MAGIC0
    &&& buf[1] == MAGIC1
    &&& buf[2] == VERSION
    &&& buf[3] == frame_type
}

/// The bytes of the audio header `h`.
pub open spec fn audio_header_bytes(h: AudioHeader) -> Seq<u8> {
    frame_prefix(TYPE_AUDIO) + seq![h.flags] + be64(h.seq) + be64(h.ts_us)
}

/// The AUDIO datagram carrying `payload` under header `h`.
pub open spec fn audio_frame(h: AudioHeader, payload: Seq<u8>) -> Seq<u8> {
    audio_header_bytes(h) + payload
}

/// What `decode_audio` makes of `buf`.
pub open spec fn parse_audio(buf: Seq<u8>) -> Option<(AudioHeader, Seq<u8>)> {
    if has_prefix(buf, TYPE_AUDIO, AUDIO_HEADER_LEN as int) {
        Some(
            (
                AudioHeader {
                    flags: buf[4],
                    seq: from_be64(buf.subrange(5, 13)),
                    ts_us: from_be64(buf.subrange(13, 21)),
                },
                buf.subrange(AUDIO_HEADER_LEN as int, buf.len() as int),
            ),
        )
    } else {
        None
    }
}

/// The SUBSCRIBE datagram carrying `salt_b`.
pub open spec fn subscribe_frame(salt_b: u64) -> Seq<u8> {
    frame_prefix(TYPE_SUBSCRIBE) + be64(salt_b)
}

/// What `decode_subscribe` makes of `buf`.
pub open spec fn parse_subscribe(buf: Seq<u8>) -> Option<u64> {
    if has_prefix(buf, TYPE_SUBSCRIBE, SUBSCRIBE_LEN as int) {
        Some(from_be64(buf.subrange(4, 12)))
    } else {
        None
    }
}

/// The STREAM_INFO datagram announcing `info`.
pub open spec fn stream_info_frame(info: StreamInfo) -> Seq<u8> {
    frame_prefix(TYPE_STREAM_INFO) + be32(info.sample_rate) + be16(info.channels) + be64(
        info.salt_a,
    ) + seq![info.flags]
}

/// What `decode_stream_info` makes of `buf`.
pub open spec fn parse_stream_info(buf: Seq<u8>) -> Option<StreamInfo> {
    if has_prefix(buf, TYPE_STREAM_INFO, STREAM_INFO_LEN as int) {
        Some(
            StreamInfo {
                sample_rate: from_be32(buf.subrange(4, 8)),
                channels: from_be16(buf.subrange(8, 10)),
                salt_a: from_be64(buf.subrange(10, 18)),
                flags: buf[18],
            },
        )
    } else {
        None
    }
}

fn push_prefix(out: &mut Vec<u8>, frame_type: u8)
    ensures
        final(out)@ == old(out)@ + frame_prefix(frame_type),
{
    out.push(MAGIC0);
    out.push(MAGIC1);
    out.push(VERSION);
    out.push(frame_type);
    assert(out@ =~= old(out)@ + frame_prefix(frame_type));
}

fn check_prefix(buf: &[u8], frame_type: u8, min_len: usize) -> (r: bool)
    requires
        min_len >= 4,
    ensures
        r == has_prefix(buf@, frame_type, min_len as int),
{
    buf.len() >= min_len && buf[0] == MAGIC0 && buf[1] == MAGIC1 && buf[2] == VERSION && buf[3]
        == frame_type
}

/// Writes an AUDIO datagram (header + payload) into `out`, replacing its contents.
pub fn encode_audio(h: &AudioHeader, payload: &[u8], out: &mut Vec<u8>)
    ensures
        final(out)@ == audio_frame(*h, payload@),
{
    out.clear();
    push_prefix(out, TYPE_AUDIO);
    out.push(h.flags);
    push_be64(out, h.seq);
    push_be64(out, h.ts_us);
    push_all(out, payload);
    assert(out@ =~= audio_frame(*h, payload@));
}

/// Parses an AUDIO datagram, returning the header and the payload slice.
pub fn decode_audio(buf: &[u8]) -> (r: Option<(AudioHeader, &[u8])>)
    ensures
        match r {
            Some((h, p)) => parse_audio(buf@) == Some((h, p@)),
            None => parse_audio(buf@) is None,
        },
{
    if !check_prefix(buf, TYPE_AUDIO, AUDIO_HEADER_LEN) {
        return None;
    }
    let flags = buf[4];
    let seq = read_be64(buf, 5);
    let ts_us = read_be64(buf, 13);
    let payload = &buf[AUDIO_HEADER_LEN..buf.len()];
    Some((AudioHeader { flags, seq, ts_us }, payload))
}

/// SUBSCRIBE: a sink asks a source to start streaming, offering its session salt.
pub fn encode_subscribe(salt_b: u64, out: &mut Vec<u8>)
    ensures
        final(out)@ == subscribe_frame(salt_b),
{
    out.clear();
    push_prefix(out, TYPE_SUBSCRIBE);
    push_be64(out, salt_b);
    assert(out@ =~= subscribe_frame(salt_b));
}

/// Parses a SUBSCRIBE datagram, returning the sink's salt.
pub fn decode_subscribe(buf: &[u8]) -> (r: Option<u64>)
    ensures
        r == parse_subscribe(buf@),
{
    if !check_prefix(buf, TYPE_SUBSCRIBE, SUBSCRIBE_LEN) {
        return None;
    }
    Some(read_be64(buf, 4))
}

/// STREAM_INFO: a source announces the stream format to a subscribing sink.
pub fn encode_stream_info(info: &StreamInfo, out: &mut Vec<u8>)
    ensures
        final(out)@ == stream_info_frame(*info),
{
    out.clear();
    push_prefix(out, TYPE_STREAM_INFO);
    push_be32(out, info.sample_rate);
    push_be16(out, info.channels);
    push_be64(out, info.salt_a);
    out.push(info.flags);
    assert(out@ =~= stream_info_frame(*info));
}

/// Parses a STREAM_INFO datagram.
pub fn decode_stream_info(buf: &[u8]) -> (r: Option<StreamInfo>)
    ensures
        r == parse_stream_info(buf@),
{
    if !check_prefix(buf, TYPE_STREAM_INFO, STREAM_INFO_LEN) {
        return None;
    }
    Some(
        StreamInfo {
            sample_rate: read_be32(buf, 4),
            channels: read_be16(buf, 8),
            salt_a: read_be64(buf, 10),
            flags: buf[18],
        },
    )
}

/// An AUDIO datagram decodes to exactly the header and payload it was encoded from.
pub proof fn lemma_audio_roundtrip(h: AudioHeader, payload: Seq<u8>)
    ensures
        parse_audio(audio_frame(h, payload)) == Some((h, payload)),
{
    let f = audio_frame(h, payload);
    lemma_be64_roundtrip(h.seq, Seq::empty());
    lemma_be64_roundtrip(h.ts_us, Seq::empty());
    assert(f.subrange(5, 13) =~= be64(h.seq));
    assert(f.subrange(13, 21) =~= be64(h.ts_us));
    assert(f.subrange(21, f.len() as int) =~= payload);
}

/// A datagram that decodes as AUDIO is exactly the encoding of what it decodes to.
pub proof fn lemma_audio_parse_then_encode(buf: Seq<u8>)
    requires
        parse_audio(buf) is Some,
    ensures
        ({
            let (h, p) = parse_audio(buf)->0;
            audio_frame(h, p) == buf
        }),
{
    lemma_be64_roundtrip(0, buf.subrange(5, 13));
    lemma_be64_roundtrip(0, buf.subrange(13, 21));
    let (h, p) = parse_audio(buf)->0;
    assert(audio_frame(h, p) =~= buf) by {
        assert(be64(h.seq) =~= buf.subrange(5, 13));
        assert(be64(h.ts_us) =~= buf.subrange(13, 21));
        assert forall|i: int| 0 <= i < buf.len() implies #[trigger] audio_frame(h, p)[i] == buf[i] by {
            if 5 <= i < 13 {
                assert(audio_frame(h, p)[i] == be64(h.seq)[i - 5]);
                assert(buf.subrange(5, 13)[i - 5] == buf[i]);
            } else if 13 <= i < 21 {
                assert(audio_frame(h, p)[i] == be64(h.ts_us)[i - 13]);
                assert(buf.subrange(13, 21)[i - 13] == buf[i]);
            }
        }
    }
}

/// A SUBSCRIBE datagram decodes to the salt it was encoded from.
pub proof fn lemma_subscribe_roundtrip(salt_b: u64)
    ensures
        parse_subscribe(subscribe_frame(salt_b)) == Some(salt_b),
{
    lemma_be64_roundtrip(salt_b, Seq::empty());
    assert(subscribe_frame(salt_b).subrange(4, 12) =~= be64(salt_b));
}

/// A STREAM_INFO datagram decodes to the stream info it was encoded from.
pub proof fn lemma_stream_info_roundtrip(info: StreamInfo)
    ensures
        parse_stream_info(stream_info_frame(info)) == Some(info),
{
    let f = stream_info_frame(info);
    lemma_be32_roundtrip(info.sample_rate, Seq::empty());
    lemma_be16_roundtrip(info.channels, Seq::empty());
    lemma_be64_roundtrip(info.salt_a, Seq::empty());
    assert(f.subrange(4, 8) =~= be32(info.sample_rate));
    assert(f.subrange(8, 10) =~= be16(info.channels));
    assert(f.subrange(10, 18) =~= be64(info.salt_a));
}

/// Frames of one type never decode as a frame of another type.
pub proof fn lemma_frame_types_are_disjoint(h: AudioHeader, payload: Seq<u8>, salt_b: u64, info: StreamInfo)
    ensures
        parse_subscribe(audio_frame(h, payload)) is None,
        parse_stream_info(audio_frame(h, payload)) is None,
        parse_audio(subscribe_frame(salt_b)) is None,
        parse_stream_info(subscribe_frame(salt_b)) is None,
        parse_audio(stream_info_frame(info)) is None,
        parse_subscribe(stream_info_frame(info)) is None,
{
    assert(audio_frame(h, payload)[3] == TYPE_AUDIO);
    assert(subscribe_frame(salt_b)[3] == TYPE_SUBSCRIBE);
    assert(stream_info_frame(info)[3] == TYPE_STREAM_INFO);
}

} // verus!
