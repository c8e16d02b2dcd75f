//! The WAV header sent ahead of a raw PCM stream.

use crate::wire::{le16, le32, push_le16, push_le32};
use vstd::prelude::*;

verus! {

/// ASCII `RIFF`.
pub open spec fn riff() -> Seq<u8> {
    seq![0x52u8, 0x49u8, 0x46u8, 0x46u8]
}

/// ASCII `WAVE`.
pub open spec fn wave() -> Seq<u8> {
    seq![0x57u8, 0x41u8, 0x56u8, 0x45u8]
}

/// ASCII `fmt `.
pub open spec fn fmt_tag() -> Seq<u8> {
    seq![0x66u8, 0x6Du8, 0x74u8, 0x20u8]
}

/// ASCII `data`.
pub open spec fn data_tag() -> Seq<u8> {
    seq![0x64u8, 0x61u8, 0x74u8, 0x61u8]
}

/// The 44-byte PCM WAV header of a stream of unknown length: both chunk
/// sizes are `0xFFFFFFFF`.
pub open spec fn wav_header(sample_rate: u32, channels: u16, bits_per_sample: u16) -> Seq<u8> {
    let byte_rate = (sample_rate * channels * bits_per_sample / 8) as u32;
    let block_align = (channels * bits_per_sample / 8) as u16;
    riff() + le32(0xFFFF_FFFFu32) + wave() + fmt_tag() + le32(16) + le16(1) + le16(channels) + le32(
        sample_rate,
    ) + le32(byte_rate) + le16(block_align) + le16(bits_per_sample) + data_tag() + le32(
        0xFFFF_FFFFu32,
    )
}

fn push4(out: &mut Vec<u8>, a: u8, b: u8, c: u8, d: u8)
    ensures
        final(out)@ == old(out)@ + seq![a, b, c, d],
{
    out.push(a);
    out.push(b);
    out.push(c);
    out.push(d);
    assert(out@ =~= old(out)@ + seq![a, b, c, d]);
}

/// Creates a standard 44-byte WAV PCM header for audio streaming. The data
/// chunk size is 0xFFFFFFFF to indicate an unknown/streaming length.
pub fn create_wav_header(sample_rate: u32, channels: u16, bits_per_sample: u16) -> (h: Vec<u8>)
    requires
        sample_rate * channels <= u32::MAX,
        sample_rate * channels * bits_per_sample <= u32::MAX,
        channels * bits_per_sample <= u16::MAX,
    ensures
        h@ == wav_header(sample_rate, channels, bits_per_sample),
        h@.len() == 44,
{
    let byte_rate = sample_rate * channels as u32 * bits_per_sample as u32 / 8;
    let block_align = channels * bits_per_sample / 8;
    let mut h: Vec<u8> = Vec::new();
    push4(&mut h, 0x52, 0x49, 0x46, 0x46);
    push_le32(&mut h, 0xFFFF_FFFF);
    push4(&mut h, 0x57, 0x41, 0x56, 0x45);
    push4(&mut h, 0x66, 0x6D, 0x74, 0x20);
    push_le32(&mut h, 16);
    push_le16(&mut h, 1);
    push_le16(&mut h, channels);
    push_le32(&mut h, sample_rate);
    push_le32(&mut h, byte_rate);
    push_le16(&mut h, block_align);
    push_le16(&mut h, bits_per_sample);
    push4(&mut h, 0x64, 0x61, 0x74, 0x61);
    push_le32(&mut h, 0xFFFF_FFFF);
    assert(h@ =~= wav_header(sample_rate, channels, bits_per_sample));
    h
}

} // verus!
