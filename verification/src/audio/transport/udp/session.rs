//! Protocol state of the two ends of a native UDP stream, without sockets or
//! clocks: the source answers SUBSCRIBE and frames (and optionally seals)
//! audio; the sink authenticates and de-duplicates what arrives.

use super::crypto::{
    derive_key, lemma_replay_rejected_after_record, nonce_salt, open, seal, sealed, session_key, ReplayModel,
    ReplayWindow,
    MAX_PLAINTEXT_LEN, TAG_LEN,
};
use super::packet::{
    audio_frame, audio_header_bytes, decode_audio, decode_subscribe, encode_audio,
    encode_stream_info, parse_audio, parse_stream_info, parse_subscribe, stream_info_frame, AudioHeader,
    StreamInfo, lemma_audio_roundtrip, lemma_stream_info_roundtrip, AUDIO_HEADER_LEN,
};
use crate::wire::push_all;
use vstd::prelude::*;
use vstd::string::StringSliceAdditionalSpecFns;

verus! {

/// Largest PCM payload per datagram. With the 21-byte header and the 16-byte
/// AEAD tag the whole packet stays under a 1500-byte MTU, and it is a
/// multiple of 4 so a split never lands inside an s16le stereo frame.
pub const MAX_PAYLOAD_BYTES: usize = 1200;

/// The consecutive pieces of at most `MAX_PAYLOAD_BYTES` that `payload` is sent in.
pub open spec fn payload_pieces(payload: Seq<u8>) -> Seq<Seq<u8>>
    decreases payload.len(),
{
    if payload.len() == 0 {
        Seq::empty()
    } else if payload.len() <= MAX_PAYLOAD_BYTES {
        seq![payload]
    } else {
        seq![payload.take(MAX_PAYLOAD_BYTES as int)] + payload_pieces(payload.skip(MAX_PAYLOAD_BYTES as int))
    }
}

/// Concatenation of a sequence of byte strings.
pub open spec fn concat(ps: Seq<Seq<u8>>) -> Seq<u8>
    decreases ps.len(),
{
    if ps.len() == 0 {
        Seq::empty()
    } else {
        ps[0] + concat(ps.drop_first())
    }
}

/// Splitting loses nothing and reorders nothing: the pieces concatenate back
/// to the payload, each is non-empty and at most `MAX_PAYLOAD_BYTES`, and
/// there are as few as possible.
pub proof fn lemma_payload_pieces(payload: Seq<u8>)
    ensures
        concat(payload_pieces(payload)) == payload,
        forall|i: int|
            0 <= i < payload_pieces(payload).len() ==> 0 < (#[trigger] payload_pieces(payload)[i]).len()
                <= MAX_PAYLOAD_BYTES,
        payload_pieces(payload).len() == (payload.len() + MAX_PAYLOAD_BYTES - 1) / (MAX_PAYLOAD_BYTES as int),
    decreases payload.len(),
{
    if payload.len() == 0 {
    } else if payload.len() <= MAX_PAYLOAD_BYTES {
        assert(concat(seq![payload]) =~= payload) by {
            assert(seq![payload].drop_first() =~= Seq::<Seq<u8>>::empty());
            assert(concat(Seq::<Seq<u8>>::empty()) == Seq::<u8>::empty());
            assert(payload + Seq::<u8>::empty() =~= payload);
        }
    } else {
        let rest = payload.skip(MAX_PAYLOAD_BYTES as int);
        lemma_payload_pieces(rest);
        let ps = payload_pieces(payload);
        assert(ps.drop_first() =~= payload_pieces(rest));
        assert(payload =~= payload.take(MAX_PAYLOAD_BYTES as int) + rest);
        assert forall|i: int| 0 <= i < ps.len() implies 0 < (#[trigger] ps[i]).len() <= MAX_PAYLOAD_BYTES by {
            if i > 0 {
                assert(ps[i] == payload_pieces(rest)[i - 1]);
            }
        }
    }
}

/// The `i`-th piece is the payload's bytes `1200 * i` up to `1200 * (i + 1)`,
/// or up to the end for the last piece.
proof fn lemma_piece_range(payload: Seq<u8>, i: int)
    requires
        0 <= i < payload_pieces(payload).len(),
    ensures
        MAX_PAYLOAD_BYTES * i < payload.len(),
        payload_pieces(payload)[i] == payload.subrange(
            MAX_PAYLOAD_BYTES * i,
            piece_end(payload.len() as int, i),
        ),
    decreases payload.len(),
{
    let n = payload.len() as int;
    if n <= 1200 {
        assert(payload_pieces(payload) == seq![payload]);
        assert(payload.subrange(0, n) =~= payload);
    } else {
        let rest = payload.skip(1200);
        if i == 0 {
            assert(payload.take(1200) =~= payload.subrange(0, 1200));
        } else {
            assert(payload_pieces(payload)[i] == payload_pieces(rest)[i - 1]);
            lemma_piece_range(rest, i - 1);
            assert(1200 * (i - 1) + 1200 == 1200 * i) by (nonlinear_arith);
            assert(1200 * i + 1200 == 1200 * (i + 1)) by (nonlinear_arith);
            assert(rest.subrange(1200 * (i - 1), piece_end(n - 1200, i - 1)) =~= payload.subrange(
                1200 * i,
                piece_end(n, i),
            ));
        }
    }
}

/// Where the `i`-th piece of an `n`-byte payload ends.
pub open spec fn piece_end(n: int, i: int) -> int {
    if MAX_PAYLOAD_BYTES * (i + 1) < n {
        MAX_PAYLOAD_BYTES * (i + 1)
    } else {
        n
    }
}

/// Splits `payload` into the pieces it is sent in.
pub fn split_payload(payload: &[u8]) -> (pieces: Vec<Vec<u8>>)
    ensures
        pieces@.len() == payload_pieces(payload@).len(),
        forall|i: int| 0 <= i < pieces@.len() ==> (#[trigger] pieces@[i])@ == payload_pieces(payload@)[i],
{
    let mut pieces: Vec<Vec<u8>> = Vec::new();
    let n = payload.len();
    let mut start: usize = 0;
    assert(payload@.skip(0) =~= payload@);
    assert(pieces@.map_values(|p: Vec<u8>| p@) =~= Seq::<Seq<u8>>::empty());
    assert(Seq::<Seq<u8>>::empty() + payload_pieces(payload@) =~= payload_pieces(payload@));
    while start < n
        invariant
            start <= n,
            n == payload@.len(),
            payload_pieces(payload@) == pieces@.map_values(|p: Vec<u8>| p@) + payload_pieces(payload@.skip(start as int)),
        decreases n - start,
    {
        let end = if n - start > MAX_PAYLOAD_BYTES {
            start + MAX_PAYLOAD_BYTES
        } else {
            n
        };
        let mut piece: Vec<u8> = Vec::new();
        push_all(&mut piece, &payload[start..end]);
        let ghost rest = payload@.skip(start as int);
        proof {
            assert(piece@ =~= payload@.subrange(start as int, end as int));
            if rest.len() <= MAX_PAYLOAD_BYTES {
                assert(piece@ =~= rest);
                assert(payload@.skip(end as int) =~= Seq::<u8>::empty());
                assert(payload_pieces(rest) == seq![rest]);
            } else {
                assert(piece@ =~= rest.take(MAX_PAYLOAD_BYTES as int));
                assert(rest.skip(MAX_PAYLOAD_BYTES as int) =~= payload@.skip(end as int));
            }
        }
        pieces.push(piece);
        proof {
            let old_view = pieces@.drop_last().map_values(|p: Vec<u8>| p@);
            assert(pieces@.map_values(|p: Vec<u8>| p@) =~= old_view.push(piece@));
            if rest.len() <= MAX_PAYLOAD_BYTES {
                assert(payload_pieces(payload@.skip(end as int)) =~= Seq::<Seq<u8>>::empty());
                assert(old_view + seq![rest] =~= old_view.push(piece@) + Seq::<Seq<u8>>::empty());
            } else {
                assert(payload_pieces(rest) =~= seq![piece@] + payload_pieces(payload@.skip(end as int)));
                assert(old_view + (seq![piece@] + payload_pieces(payload@.skip(end as int))) =~= old_view.push(piece@)
                    + payload_pieces(payload@.skip(end as int)));
            }
        }
        start = end;
    }
    assert(payload@.skip(n as int) =~= Seq::<u8>::empty());
    assert(payload_pieces(payload@) =~= pieces@.map_values(|p: Vec<u8>| p@));
    proof {
        assert forall|i: int| 0 <= i < pieces@.len() implies (#[trigger] pieces@[i])@ == payload_pieces(payload@)[i] by {
            assert(pieces@.map_values(|p: Vec<u8>| p@)[i] == pieces@[i]@);
        }
    }
    pieces
}

/// The source end of a session: the next sequence number, the announced
/// stream format (carrying the source salt), and the key once a subscriber
/// has been answered with a PSK configured.
pub struct SourceSession {
    seq: u64,
    info: StreamInfo,
    key: Option<[u8; 32]>,
    nonce_salt: u32,
    psk: String,
}

/// Abstract state of a source session.
pub struct SourceModel {
    pub seq: u64,
    pub info: StreamInfo,
    pub key: Option<Seq<u8>>,
    pub nonce_salt: u32,
    pub psk: Seq<char>,
}

impl View for SourceSession {
    type V = SourceModel;

    closed spec fn view(&self) -> SourceModel {
        SourceModel {
            seq: self.seq,
            info: self.info,
            key: match self.key {
                Some(k) => Some(k@),
                None => None,
            },
            nonce_salt: self.nonce_salt,
            psk: self.psk@,
        }
    }
}

/// The datagram a source sends for `piece` under header `h`: the piece in
/// clear, or sealed with the header bytes as associated data.
pub open spec fn source_datagram(key: Option<Seq<u8>>, salt: u32, h: AudioHeader, piece: Seq<u8>) -> Seq<u8> {
    match key {
        Some(k) => audio_frame(h, sealed(k, salt, h.seq, audio_header_bytes(h), piece)),
        None => audio_frame(h, piece),
    }
}

/// The source state after answering a SUBSCRIBE carrying `salt_b`: without a
/// PSK unchanged; with one, keyed by the session key and nonce salt derived
/// from both salts and announcing the stream as encrypted (flags = 1).
pub open spec fn subscribed(o: SourceModel, salt_b: u64) -> SourceModel {
    if o.psk.len() == 0 {
        o
    } else {
        SourceModel {
            info: StreamInfo { flags: 1, ..o.info },
            key: Some(session_key(vstd::utf8::encode_utf8(o.psk), o.info.salt_a, salt_b)),
            nonce_salt: ((o.info.salt_a ^ salt_b) & 0xFFFF_FFFFu64) as u32,
            ..o
        }
    }
}

impl SourceSession {
    /// A source announcing `sample_rate`/`channels` with session salt
    /// `salt_a` (the caller draws it from the clock); encrypted once a
    /// subscriber arrives if `psk` is non-empty.
    pub fn new(sample_rate: u32, channels: u16, psk: String, salt_a: u64) -> (s: Self)
        ensures
            s@.seq == 0,
            s@.info == (StreamInfo { sample_rate, channels, salt_a, flags: 0 }),
            s@.key is None,
            s@.nonce_salt == 0,
            s@.psk == psk@,
    {
        SourceSession {
            seq: 0,
            info: StreamInfo { sample_rate, channels, salt_a, flags: 0 },
            key: None,
            nonce_salt: 0,
            psk,
        }
    }

    /// Handles one received datagram. A SUBSCRIBE is answered with the
    /// STREAM_INFO datagram to send back; with a PSK configured the session
    /// key and nonce salt are (re)derived from both salts first and the
    /// stream is announced as encrypted (flags = 1). Anything else is ignored.
    pub fn on_datagram(&mut self, datagram: &[u8]) -> (reply: Option<Vec<u8>>)
        ensures
            match parse_subscribe(datagram@) {
                Some(salt_b) => {
                    &&& final(self)@ == subscribed(old(self)@, salt_b)
                    &&& reply matches Some(r) && r@ == stream_info_frame(final(self)@.info)
                },
                None => reply is None && final(self)@ == old(self)@,
            },
    {
        let salt_b = match decode_subscribe(datagram) {
            Some(s) => s,
            None => return None,
        };
        if !self.psk.as_str().is_empty() {
            let key = derive_key(self.psk.as_str(), self.info.salt_a, salt_b);
            self.nonce_salt = nonce_salt(self.info.salt_a, salt_b);
            self.key = Some(key);
            self.info.flags = 1;
        }
        let mut info_out: Vec<u8> = Vec::new();
        encode_stream_info(&self.info, &mut info_out);
        Some(info_out)
    }

    /// Frames one piece of audio as the next datagram (sealed when the
    /// session has a key) and advances the sequence number, wrapping at
    /// `u64::MAX`. `ts_us` is the sender's timestamp for the piece.
    pub fn frame(&mut self, piece: &[u8], ts_us: u64) -> (datagram: Vec<u8>)
        requires
            piece@.len() < MAX_PLAINTEXT_LEN,
        ensures
            final(self)@ == (SourceModel { seq: old(self)@.seq.wrapping_add(1), ..old(self)@ }),
            datagram@ == source_datagram(
                old(self)@.key,
                old(self)@.nonce_salt,
                AudioHeader {
                    flags: if old(self)@.key is Some {
                        1
                    } else {
                        0
                    },
                    seq: old(self)@.seq,
                    ts_us,
                },
                piece@,
            ),
    {
        let h = AudioHeader {
            flags: if self.key.is_some() {
                1
            } else {
                0
            },
            seq: self.seq,
            ts_us,
        };
        let mut out: Vec<u8> = Vec::new();
        match &self.key {
            Some(key) => {
                let mut hdr: Vec<u8> = Vec::new();
                encode_audio(&h, &[], &mut hdr);
                assert(hdr@ =~= audio_header_bytes(h));
                let ct = seal(key, self.nonce_salt, self.seq, hdr.as_slice(), piece);
                encode_audio(&h, ct.as_slice(), &mut out);
            },
            None => {
                encode_audio(&h, piece, &mut out);
            },
        }
        self.seq = self.seq.wrapping_add(1);
        out
    }

    /// Frames a whole block of audio: one datagram per piece of at most
    /// `MAX_PAYLOAD_BYTES` (as `split_payload` cuts it), in order, with
    /// consecutive sequence numbers from the session's next one (wrapping)
    /// and each stamped with a fresh reading of `clock`.
    pub fn frame_payload<F: Fn() -> u64>(&mut self, payload: &[u8], clock: F) -> (datagrams: Vec<Vec<u8>>)
        requires
            call_requires(clock, ()),
        ensures
            datagrams@.len() == payload_pieces(payload@).len(),
            forall|k: int|
                0 <= k < datagrams@.len() ==> sent_as(old(self)@, k, payload_pieces(payload@)[k], #[trigger] datagrams@[k]@, clock),
            final(self)@ == (SourceModel { seq: seq_after(old(self)@.seq, datagrams@.len() as int), ..old(self)@ }),
    {
        let pieces = split_payload(payload);
        proof {
            lemma_payload_pieces(payload@);
        }
        let ghost m0 = self@;
        let ghost ps = payload_pieces(payload@);
        let mut out: Vec<Vec<u8>> = Vec::new();
        let n = pieces.len();
        let mut i: usize = 0;
        assert(seq_after(m0.seq, 0) == m0.seq) by {
            vstd::arithmetic::div_mod::lemma_small_mod(m0.seq as nat, 0x1_0000_0000_0000_0000nat);
        }
        while i < n
            invariant
                n == pieces@.len(),
                n == ps.len(),
                ps == payload_pieces(payload@),
                forall|k: int| 0 <= k < n ==> (#[trigger] pieces@[k])@ == ps[k],
                forall|k: int| 0 <= k < n ==> 0 < (#[trigger] ps[k]).len() <= MAX_PAYLOAD_BYTES,
                call_requires(clock, ()),
                i <= n,
                out@.len() == i,
                self@ == (SourceModel { seq: seq_after(m0.seq, i as int), ..m0 }),
                forall|k: int| 0 <= k < i ==> sent_as(m0, k, ps[k], #[trigger] out@[k]@, clock),
            decreases n - i,
        {
            let t = clock();
            assert(pieces@[i as int]@ == ps[i as int]);
            let d = self.frame(pieces[i].as_slice(), t);
            proof {
                let h = block_header(m0, i as int, t);
                assert(d@ == source_datagram(m0.key, m0.nonce_salt, h, ps[i as int]));
                assert(sent_as(m0, i as int, ps[i as int], d@, clock));
                lemma_seq_after_step(m0.seq, i as int);
            }
            out.push(d);
            i = i + 1;
        }
        out
    }

    /// Sends one block of audio: to a live subscriber it goes out as
    /// `frame_payload` frames it; with none live nothing is sent and the
    /// session is left as it was (the caller forgets the subscriber).
    pub fn send_block<F: Fn() -> u64>(&mut self, live: bool, payload: &[u8], clock: F) -> (r: Option<Vec<Vec<u8>>>)
        requires
            call_requires(clock, ()),
        ensures
            !live ==> r is None && final(self)@ == old(self)@,
            live ==> (r matches Some(datagrams) && {
                &&& datagrams@.len() == payload_pieces(payload@).len()
                &&& forall|k: int|
                    0 <= k < datagrams@.len() ==> sent_as(
                        old(self)@,
                        k,
                        payload_pieces(payload@)[k],
                        #[trigger] datagrams@[k]@,
                        clock,
                    )
                &&& final(self)@ == (SourceModel { seq: seq_after(old(self)@.seq, datagrams@.len() as int), ..old(self)@ })
            }),
    {
        if live {
            Some(self.frame_payload(payload, clock))
        } else {
            None
        }
    }
}

/// How long a subscriber counts as present without being heard from.
pub const PEER_TIMEOUT_MS: u64 = 5000;

/// Whether the source has a live subscriber: one is known, and it was last
/// heard from (SUBSCRIBE) less than `PEER_TIMEOUT_MS` milliseconds ago.
pub fn peer_live(known: bool, since_seen_ms: u64) -> (live: bool)
    ensures
        live == (known && since_seen_ms < PEER_TIMEOUT_MS),
{
    known && since_seen_ms < PEER_TIMEOUT_MS
}

/// The sequence number `k` places after `s`, wrapping at `u64::MAX`.
pub open spec fn seq_after(s: u64, k: int) -> u64 {
    ((s + k) % 0x1_0000_0000_0000_0000int) as u64
}

/// Whether `d` is the datagram a source in state `m` sends for `piece` as the
/// `k`-th of a block, stamped with a reading of `clock`: its header carries
/// the session's encryption flag, the `k`-th sequence number and a value
/// `clock` can return, and it is sealed under the session key when there is
/// one.
pub open spec fn sent_as<F: Fn() -> u64>(m: SourceModel, k: int, piece: Seq<u8>, d: Seq<u8>, clock: F) -> bool {
    exists|t: u64|
        call_ensures(clock, (), t) && d == source_datagram(m.key, m.nonce_salt, #[trigger] block_header(m, k, t), piece)
}

/// The header of the `k`-th datagram of a block sent from state `m` at
/// timestamp `t`: the session's encryption flag and the `k`-th sequence
/// number after the session's next one.
pub open spec fn block_header(m: SourceModel, k: int, t: u64) -> AudioHeader {
    AudioHeader {
        flags: if m.key is Some {
            1
        } else {
            0
        },
        seq: seq_after(m.seq, k),
        ts_us: t,
    }
}

proof fn lemma_seq_after_step(s: u64, k: int)
    requires
        k >= 0,
    ensures
        seq_after(s, k).wrapping_add(1) == seq_after(s, k + 1),
{
    let m = 0x1_0000_0000_0000_0000int;
    vstd::arithmetic::div_mod::lemma_add_mod_noop(s + k, 1, m);
    vstd::arithmetic::div_mod::lemma_mod_bound(s + k, m);
    vstd::arithmetic::div_mod::lemma_small_mod(1, m as nat);
    let x = (s + k) % m;
    if x + 1 == m {
        vstd::arithmetic::div_mod::lemma_mod_self_0(m);
    } else {
        vstd::arithmetic::div_mod::lemma_small_mod((x + 1) as nat, m as nat);
    }
}

/// A block of audio goes out as ceil(n / 1200) datagrams for n bytes,
/// carrying the pieces in order with consecutive sequence numbers, and they
/// reassemble to the block.
pub proof fn lemma_block_fragmentation(payload: Seq<u8>)
    ensures
        payload_pieces(payload).len() == (payload.len() + MAX_PAYLOAD_BYTES - 1) / (MAX_PAYLOAD_BYTES as int),
        concat(payload_pieces(payload)) == payload,
        forall|i: int|
            0 <= i < payload_pieces(payload).len() ==> (#[trigger] payload_pieces(payload)[i]) == payload.subrange(
                MAX_PAYLOAD_BYTES * i,
                piece_end(payload.len() as int, i),
            ),
{
    lemma_payload_pieces(payload);
    assert forall|i: int| 0 <= i < payload_pieces(payload).len() implies (#[trigger] payload_pieces(payload)[i])
        == payload.subrange(MAX_PAYLOAD_BYTES * i, piece_end(payload.len() as int, i)) by {
        lemma_piece_range(payload, i);
    }
}

/// Without a key, the `k`-th datagram a block of `payload` goes out in
/// decodes as AUDIO with flags 0, the `k`-th sequence number after the
/// session's next one, a timestamp read from the clock, and exactly the
/// payload's bytes `1200 * k` up to `1200 * (k + 1)` (or the end).
pub proof fn lemma_clear_block_datagram<F: Fn() -> u64>(
    m: SourceModel,
    payload: Seq<u8>,
    k: int,
    d: Seq<u8>,
    clock: F,
)
    requires
        m.key is None,
        0 <= k < payload_pieces(payload).len(),
        sent_as(m, k, payload_pieces(payload)[k], d, clock),
    ensures
        parse_audio(d) matches Some((h, p)) && h.flags == 0 && h.seq == seq_after(m.seq, k)
            && call_ensures(clock, (), h.ts_us) && p == payload.subrange(
            MAX_PAYLOAD_BYTES * k,
            piece_end(payload.len() as int, k),
        ),
{
    let t = choose|t: u64|
        call_ensures(clock, (), t) && d == source_datagram(
            m.key,
            m.nonce_salt,
            #[trigger] block_header(m, k, t),
            payload_pieces(payload)[k],
        );
    lemma_audio_roundtrip(block_header(m, k, t), payload_pieces(payload)[k]);
    lemma_piece_range(payload, k);
}

/// The sink end of a session: the key (when the stream is encrypted), the
/// nonce salt, and the replay window.
pub struct SinkSession {
    key: Option<[u8; 32]>,
    nonce_salt: u32,
    replay: ReplayWindow,
}

/// Abstract state of a sink session.
pub struct SinkModel {
    pub key: Option<Seq<u8>>,
    pub nonce_salt: u32,
    pub replay: ReplayModel,
}

impl View for SinkSession {
    type V = SinkModel;

    closed spec fn view(&self) -> SinkModel {
        SinkModel {
            key: match self.key {
                Some(k) => Some(k@),
                None => None,
            },
            nonce_salt: self.nonce_salt,
            replay: self.replay@,
        }
    }
}

/// Whether `r` is what the sink may hand on for `datagram` in state `m`, and
/// `n` the state it moves to: non-AUDIO datagrams are dropped; clear frames
/// pass with their sequence number; sealed frames are dropped without a key,
/// dropped when their sequence number is not fresh, and otherwise recorded
/// in the replay window and passed only if they open under the key, nonce
/// salt, sequence number and header, as the plaintext they are the sealing of.
pub open spec fn sink_accepts(m: SinkModel, datagram: Seq<u8>, r: Option<(u64, Seq<u8>)>, n: SinkModel) -> bool {
    match parse_audio(datagram) {
        None => r is None && n == m,
        Some((h, payload)) => if h.flags & 1 == 0 {
            r == Some((h.seq, payload)) && n == m
        } else {
            match m.key {
                None => r is None && n == m,
                Some(k) => if !m.replay.fresh(h.seq) {
                    r is None && n == m
                } else {
                    &&& n == SinkModel { replay: m.replay.record(h.seq), ..m }
                    &&& (r matches Some((s, p)) ==> s == h.seq && payload == sealed(
                        k,
                        m.nonce_salt,
                        h.seq,
                        audio_header_bytes(h),
                        p,
                    ))
                    &&& (forall|p: Seq<u8>|
                        p.len() < MAX_PLAINTEXT_LEN && payload == #[trigger] sealed(
                            k,
                            m.nonce_salt,
                            h.seq,
                            audio_header_bytes(h),
                            p,
                        ) ==> r == Some((h.seq, p)))
                },
            }
        },
    }
}

/// The key a sink with `psk` derives for the stream `info` it subscribed to with `salt_b`.
pub open spec fn sink_key(psk: Seq<char>, info: StreamInfo, salt_b: u64) -> Option<Seq<u8>> {
    if psk.len() == 0 {
        None
    } else {
        Some(session_key(vstd::utf8::encode_utf8(psk), info.salt_a, salt_b))
    }
}

/// The nonce salt a sink with `psk` uses for the stream `info` it subscribed to with `salt_b`.
pub open spec fn sink_nonce_salt(psk: Seq<char>, info: StreamInfo, salt_b: u64) -> u32 {
    if psk.len() == 0 {
        0
    } else {
        ((info.salt_a ^ salt_b) & 0xFFFF_FFFFu64) as u32
    }
}

impl SinkSession {
    /// A sink for a stream sealed under `key` with `nonce_salt` (`None` for a
    /// clear stream), with an empty replay window.
    pub fn new(key: Option<[u8; 32]>, nonce_salt: u32) -> (s: Self)
        ensures
            s@.key == (match key {
                Some(k) => Some(k@),
                None => None::<Seq<u8>>,
            }),
            s@.nonce_salt == nonce_salt,
            !s@.replay.started,
    {
        SinkSession { key, nonce_salt, replay: ReplayWindow::new() }
    }

    /// The sink for the stream `info` announced in answer to a SUBSCRIBE that
    /// carried `salt_b`: with a PSK configured, keyed by the session key and
    /// nonce salt both peers derive from the PSK and the two salts; without
    /// one, a clear sink. Its replay window starts empty.
    pub fn for_stream(psk: &str, info: &StreamInfo, salt_b: u64) -> (s: Self)
        ensures
            s@.key == sink_key(psk@, *info, salt_b),
            s@.nonce_salt == sink_nonce_salt(psk@, *info, salt_b),
            !s@.replay.started,
    {
        if psk.is_empty() {
            SinkSession::new(None, 0)
        } else {
            SinkSession::new(Some(derive_key(psk, info.salt_a, salt_b)), nonce_salt(info.salt_a, salt_b))
        }
    }

    /// Handles one received datagram, returning the sequence number and the
    /// PCM payload to hand to the jitter buffer, or `None` when the datagram
    /// is dropped (not audio, replayed, forged or undecryptable).
    pub fn accept(&mut self, datagram: &[u8]) -> (r: Option<(u64, Vec<u8>)>)
        ensures
            sink_accepts(
                old(self)@,
                datagram@,
                match r {
                    Some((s, p)) => Some((s, p@)),
                    None => None,
                },
                final(self)@,
            ),
    {
        let (h, payload) = match decode_audio(datagram) {
            Some(x) => x,
            None => return None,
        };
        if h.flags & 1 == 0 {
            let mut pcm: Vec<u8> = Vec::new();
            push_all(&mut pcm, payload);
            return Some((h.seq, pcm));
        }
        let key = match &self.key {
            Some(k) => *k,
            None => return None,
        };
        if !self.replay.check_and_update(h.seq) {
            return None;
        }
        let mut hdr: Vec<u8> = Vec::new();
        encode_audio(&h, &[], &mut hdr);
        assert(hdr@ =~= audio_header_bytes(h));
        let opened = open(&key, self.nonce_salt, h.seq, hdr.as_slice(), payload);
        proof {
            assert forall|p: Seq<u8>|
                p.len() < MAX_PLAINTEXT_LEN && payload@ == #[trigger] sealed(
                    key@,
                    self.nonce_salt,
                    h.seq,
                    audio_header_bytes(h),
                    p,
                ) implies opened is Some && opened.unwrap()@ == p by {
                assert(super::crypto::honest_ciphertext(payload@, key@, super::crypto::nonce_bytes(self.nonce_salt, h.seq), hdr@, p));
            }
        }
        match opened {
            Some(pt) => Some((h.seq, pt)),
            None => None,
        }
    }
}

/// Whether handing on `(s, pt)` for datagram `d` is what a sink in state `m`
/// may do: `d` decodes as audio with sequence number `s`; a clear frame
/// yields its payload as is; an encrypted one yields audio only when the
/// sink holds a key, `s` is fresh for its replay window, and the payload is
/// the sealing of exactly `pt` under that key, the nonce salt, `s` and the
/// frame's header.
pub open spec fn authentic_delivery(m: SinkModel, d: Seq<u8>, s: u64, pt: Seq<u8>) -> bool {
    match parse_audio(d) {
        None => false,
        Some((h, payload)) => {
            &&& s == h.seq
            &&& h.flags & 1 == 0 ==> pt == payload
            &&& h.flags & 1 != 0 ==> match m.key {
                None => false,
                Some(k) => m.replay.fresh(h.seq) && payload == sealed(
                    k,
                    m.nonce_salt,
                    h.seq,
                    audio_header_bytes(h),
                    pt,
                ),
            }
        },
    }
}

/// What the receive loop plays comes only from authentic frames: a datagram
/// that does not decode as audio is ignored and leaves the sink as it was,
/// and whatever is handed on satisfies `authentic_delivery`. Once an
/// encrypted frame's sequence number has been taken, it is no longer fresh.
pub proof fn lemma_sink_delivers_only_authentic(m: SinkModel, d: Seq<u8>, r: Option<(u64, Seq<u8>)>, n: SinkModel)
    requires
        sink_accepts(m, d, r, n),
    ensures
        parse_audio(d) is None ==> r is None && n == m,
        r matches Some((s, pt)) ==> authentic_delivery(m, d, s, pt),
        n != m ==> (parse_audio(d) matches Some((h, _)) && h.flags & 1 != 0 && !n.replay.fresh(h.seq)),
{
    match parse_audio(d) {
        None => {},
        Some((h, payload)) => {
            if h.flags & 1 != 0 {
                if let Some(k) = m.key {
                    if m.replay.fresh(h.seq) {
                        lemma_replay_rejected_after_record(m.replay, h.seq);
                    }
                }
            }
        },
    }
}

/// A frame the source sends is handed on by a sink holding the same key and
/// nonce salt, with the source's sequence number and exactly the piece that
/// was framed, as long as its sequence number is fresh for the sink (the
/// end-to-end guarantee of the transport).
pub proof fn lemma_source_to_sink(
    key: Option<Seq<u8>>,
    salt: u32,
    h: AudioHeader,
    piece: Seq<u8>,
    m: SinkModel,
    r: Option<(u64, Seq<u8>)>,
    n: SinkModel,
)
    requires
        piece.len() < MAX_PLAINTEXT_LEN,
        h.flags == (if key is Some { 1u8 } else { 0u8 }),
        m.key == key,
        m.nonce_salt == salt,
        key is Some ==> m.replay.fresh(h.seq),
        sink_accepts(m, source_datagram(key, salt, h, piece), r, n),
    ensures
        r == Some((h.seq, piece)),
{
    match key {
        Some(k) => {
            let ct = sealed(k, salt, h.seq, audio_header_bytes(h), piece);
            lemma_audio_roundtrip(h, ct);
            assert((1u8 & 1u8) != 0u8) by (bit_vector);
        },
        None => {
            lemma_audio_roundtrip(h, piece);
            assert((0u8 & 1u8) == 0u8) by (bit_vector);
        },
    }
}


/// The handshake makes both ends agree: when a source with PSK `P` answers a
/// SUBSCRIBE carrying `salt_b`, a sink configured with the same `P` that
/// reads the STREAM_INFO it got back holds the source's key and nonce salt,
/// so every frame the source sends from then on (with a sequence number the
/// sink has not seen) is handed on with its sequence number and exactly its
/// piece, sealed or clear as the PSK says.
pub proof fn lemma_handshake_then_delivery(
    o: SourceModel,
    salt_b: u64,
    ts_us: u64,
    piece: Seq<u8>,
    m: SinkModel,
    r: Option<(u64, Seq<u8>)>,
    n: SinkModel,
)
    requires
        o.psk.len() == 0 ==> o.key is None,
        piece.len() < MAX_PLAINTEXT_LEN,
        ({
            let s = subscribed(o, salt_b);
            let info = parse_stream_info(stream_info_frame(s.info));
            &&& info is Some
            &&& m.key == sink_key(o.psk, info.unwrap(), salt_b)
            &&& m.nonce_salt == sink_nonce_salt(o.psk, info.unwrap(), salt_b)
            &&& m.replay.fresh(s.seq)
            &&& sink_accepts(
                m,
                source_datagram(
                    s.key,
                    s.nonce_salt,
                    AudioHeader {
                        flags: if s.key is Some {
                            1
                        } else {
                            0
                        },
                        seq: s.seq,
                        ts_us,
                    },
                    piece,
                ),
                r,
                n,
            )
        }),
    ensures
        r == Some((subscribed(o, salt_b).seq, piece)),
{
    let s = subscribed(o, salt_b);
    lemma_stream_info_roundtrip(s.info);
    let h = AudioHeader {
        flags: if s.key is Some {
            1
        } else {
            0
        },
        seq: s.seq,
        ts_us,
    };
    assert(source_datagram(s.key, s.nonce_salt, h, piece) == source_datagram(s.key, m.nonce_salt, h, piece));
    lemma_source_to_sink(s.key, m.nonce_salt, h, piece, m, r, n);
}

} // verus!
