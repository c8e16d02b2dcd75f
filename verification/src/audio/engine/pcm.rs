//! Signed 16-bit little-endian PCM: the byte layout of the wire format.
//! (Quantizing float samples to and from `i16` happens at the audio edge.)

use crate::wire::{from_le16, le16, lemma_le16_roundtrip};
use vstd::prelude::*;

verus! {

/// The little-endian bytes of every sample, in order.
pub open spec fn pcm16_bytes(samples: Seq<i16>) -> Seq<u8> {
    Seq::new(samples.len() * 2, |k: int| le16(samples[k / 2] as u16)[k % 2])
}

/// The samples held by `bytes`: one per whole pair of bytes, a trailing odd
/// byte ignored.
pub open spec fn pcm16_samples(bytes: Seq<u8>) -> Seq<i16> {
    Seq::new(bytes.len() / 2, |i: int| from_le16(bytes.subrange(2 * i, 2 * i + 2)) as i16)
}

/// Encodes samples as signed 16-bit little-endian PCM, replacing `out`.
pub fn encode_pcm_i16_le(samples: &[i16], out: &mut Vec<u8>)
    ensures
        final(out)@ == pcm16_bytes(samples@),
{
    out.clear();
    let n = samples.len();
    let mut i: usize = 0;
    while i < n
        invariant
            i <= n,
            n == samples@.len(),
            out@ == pcm16_bytes(samples@).take(2 * i as int),
        decreases n - i,
    {
        let v = samples[i] as u16;
        out.push(v as u8);
        out.push((v >> 8) as u8);
        proof {
            assert(((2 * i) as int) / 2 == i && ((2 * i + 1) as int) / 2 == i);
            assert(((2 * i) as int) % 2 == 0 && ((2 * i + 1) as int) % 2 == 1);
        }
        i = i + 1;
        assert(out@ =~= pcm16_bytes(samples@).take(2 * i as int));
    }
    assert(out@ =~= pcm16_bytes(samples@));
}

/// Decodes signed 16-bit little-endian PCM, replacing `out`. A trailing odd
/// byte (incomplete sample) is ignored.
pub fn decode_pcm_i16_le(bytes: &[u8], out: &mut Vec<i16>)
    ensures
        final(out)@ == pcm16_samples(bytes@),
{
    out.clear();
    let n = bytes.len() / 2;
    let mut i: usize = 0;
    while i < n
        invariant
            i <= n,
            n == bytes@.len() / 2,
            bytes@.len() == bytes.len(),
            out@ == pcm16_samples(bytes@).take(i as int),
        decreases n - i,
    {
        let v = ((bytes[2 * i] as u16) | ((bytes[2 * i + 1] as u16) << 8)) as i16;
        out.push(v);
        proof {
            assert(bytes@.subrange(2 * i as int, 2 * i + 2)[0] == bytes@[2 * i as int]);
            assert(bytes@.subrange(2 * i as int, 2 * i + 2)[1] == bytes@[2 * i + 1]);
        }
        i = i + 1;
        assert(out@ =~= pcm16_samples(bytes@).take(i as int));
    }
    assert(out@ =~= pcm16_samples(bytes@));
}

/// Decoding the encoding of any samples gives them back exactly.
pub proof fn lemma_pcm16_roundtrip(samples: Seq<i16>)
    ensures
        pcm16_bytes(samples).len() == 2 * samples.len(),
        pcm16_samples(pcm16_bytes(samples)) == samples,
{
    let b = pcm16_bytes(samples);
    assert forall|i: int| 0 <= i < samples.len() implies #[trigger] pcm16_samples(b)[i] == samples[i] by {
        let x = samples[i];
        lemma_le16_roundtrip(x as u16, Seq::empty());
        assert(b.subrange(2 * i, 2 * i + 2) =~= le16(x as u16)) by {
            assert((2 * i) / 2 == i && (2 * i + 1) / 2 == i);
            assert((2 * i) % 2 == 0 && (2 * i + 1) % 2 == 1);
        }
        assert(((x as u16) as i16) == x) by (bit_vector);
    }
    assert(pcm16_samples(b) =~= samples);
}

} // verus!
