//! Codec identifiers, and the preparation of 16-bit PCM for per-chunk FLAC
//! compression (libFLAC itself runs at the application edge).

use crate::audio::engine::pcm::{decode_pcm_i16_le, pcm16_samples};
use vstd::prelude::*;

verus! {

/// The payload codec announced in a packet header.
#[derive(Debug, Clone, Copy, PartialEq, Eq, Structural)]
pub enum Codec {
    Pcm,
    Flac,
    Opus,
}

/// The codec a header byte announces: 1 is FLAC, 2 is Opus, anything else raw PCM.
pub open spec fn codec_of_byte(byte: u8) -> Codec {
    if byte == 1 {
        Codec::Flac
    } else if byte == 2 {
        Codec::Opus
    } else {
        Codec::Pcm
    }
}

/// The header byte of a codec.
pub open spec fn codec_byte(codec: Codec) -> u8 {
    match codec {
        Codec::Pcm => 0,
        Codec::Flac => 1,
        Codec::Opus => 2,
    }
}

impl From<u8> for Codec {
    fn from(byte: u8) -> (c: Codec) {
        if byte == 1 {
            Codec::Flac
        } else if byte == 2 {
            Codec::Opus
        } else {
            Codec::Pcm
        }
    }
}

impl vstd::std_specs::convert::FromSpecImpl<u8> for Codec {
    open spec fn obeys_from_spec() -> bool {
        true
    }

    open spec fn from_spec(v: u8) -> Codec {
        codec_of_byte(v)
    }
}

impl Codec {
    /// The header byte announcing this codec.
    pub fn byte(self) -> (b: u8)
        ensures
            b == codec_byte(self),
    {
        match self {
            Codec::Pcm => 0,
            Codec::Flac => 1,
            Codec::Opus => 2,
        }
    }
}

/// Reading back the byte of any codec gives that codec.
pub proof fn lemma_codec_byte_roundtrip(codec: Codec)
    ensures
        codec_of_byte(codec_byte(codec)) == codec,
{
}

/// The samples of 16-bit PCM bytes widened to `i32`, as libFLAC takes them.
pub open spec fn flac_input(pcm: Seq<u8>) -> Seq<i32> {
    pcm16_samples(pcm).map_values(|s: i16| s as i32)
}

/// Whole frames of `channels` channels in `len` interleaved samples (none
/// for zero channels, which the encoder refuses before reading any).
pub open spec fn whole_frames(len: nat, channels: u16) -> u32 {
    if channels == 0 {
        0
    } else {
        (len / (channels as nat)) as u32
    }
}

/// Prepares one chunk of interleaved signed 16-bit little-endian PCM for a
/// per-chunk FLAC encoder session: the samples widened to `i32` (a trailing
/// odd byte ignored) and the number of whole frames to hand to
/// `process_interleaved`, which never reads past the samples.
pub fn flac_encoder_input(pcm_data: &[u8], channels: u16) -> (r: (Vec<i32>, u32))
    requires
        pcm_data@.len() / 2 <= u32::MAX,
    ensures
        r.0@ == flac_input(pcm_data@),
        r.1 == whole_frames(pcm_data@.len() / 2, channels),
        r.1 * channels <= r.0@.len(),
{
    let mut pcm: Vec<i16> = Vec::new();
    decode_pcm_i16_le(pcm_data, &mut pcm);
    let mut samples: Vec<i32> = Vec::new();
    let n = pcm.len();
    let mut i: usize = 0;
    while i < n
        invariant
            i <= n,
            n == pcm@.len(),
            samples@ == pcm@.take(i as int).map_values(|s: i16| s as i32),
        decreases n - i,
    {
        samples.push(pcm[i] as i32);
        i = i + 1;
        assert(samples@ =~= pcm@.take(i as int).map_values(|s: i16| s as i32));
    }
    assert(pcm@.take(n as int) =~= pcm@);
    let len = samples.len() as u32;
    let frames = if channels == 0 {
        0
    } else {
        len / channels as u32
    };
    proof {
        if channels > 0 {
            assert(frames * channels <= len) by (nonlinear_arith)
                requires
                    frames == len / (channels as u32),
                    channels > 0,
            ;
        }
    }
    (samples, frames)
}

} // verus!
