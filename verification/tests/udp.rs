use tcp_streamer::audio::transport::udp::crypto::{derive_key, nonce, nonce_salt, open, seal, ReplayWindow, TAG_LEN};
use tcp_streamer::audio::transport::udp::drift::{DriftAction, DriftCooldown, DriftLedger};
use tcp_streamer::audio::transport::udp::jitter::{JitterBuffer, Pop};
use tcp_streamer::audio::transport::udp::packet::{
    decode_audio, decode_stream_info, decode_subscribe, encode_audio, encode_stream_info, encode_subscribe, AudioHeader,
    StreamInfo,
};
use tcp_streamer::audio::transport::udp::session::{
    peer_live, split_payload, SinkSession, SourceSession, MAX_PAYLOAD_BYTES, PEER_TIMEOUT_MS,
};

#[test]
fn key_derivation_is_deterministic_and_salt_sensitive() {
    assert_eq!(derive_key("pw", 1, 2), derive_key("pw", 1, 2));
    assert_ne!(derive_key("pw", 1, 2), derive_key("pw", 9, 2));
    assert_ne!(derive_key("pw", 1, 2), derive_key("other", 1, 2));
}

#[test]
fn seal_then_open_roundtrips() {
    let k = derive_key("secret", 11, 22);
    let salt = nonce_salt(11, 22);
    let aad = b"header-bytes";
    let ct = seal(&k, salt, 5, aad, b"hello pcm");
    assert_eq!(open(&k, salt, 5, aad, &ct).as_deref(), Some(&b"hello pcm"[..]));
}

#[test]
fn open_rejects_tampered_ciphertext_aad_key_or_seq() {
    let k = derive_key("secret", 11, 22);
    let salt = nonce_salt(11, 22);
    let mut ct = seal(&k, salt, 5, b"hdr", b"pcm");
    let good = ct.clone();
    ct[0] ^= 0xFF;
    assert!(open(&k, salt, 5, b"hdr", &ct).is_none());
    assert!(open(&k, salt, 5, b"OTHER", &good).is_none());
    assert!(open(&k, salt, 6, b"hdr", &good).is_none());
    let k2 = derive_key("wrong", 11, 22);
    assert!(open(&k2, salt, 5, b"hdr", &good).is_none());
}

#[test]
fn replay_window_accepts_new_rejects_dup_and_old() {
    let mut w = ReplayWindow::new();
    assert!(w.check_and_update(100));
    assert!(w.check_and_update(101));
    assert!(!w.check_and_update(101));
    assert!(w.check_and_update(102));
    assert!(w.check_and_update(99));
    assert!(!w.check_and_update(99));
    assert!(!w.check_and_update(35));
}

#[test]
fn replay_window_edge_of_window() {
    let mut w = ReplayWindow::new();
    assert!(w.check_and_update(200));
    assert!(w.check_and_update(137));
    assert!(!w.check_and_update(136));
    assert!(w.check_and_update(1000));
    assert!(!w.check_and_update(200));
}

#[test]
fn sealed_length_and_nonce_layout() {
    let k = derive_key("pw", 3, 4);
    let ct = seal(&k, 7, 9, b"", b"abcdef");
    assert_eq!(ct.len(), 6 + TAG_LEN);
    assert_ne!(&ct[..6], b"abcdef");
    assert_eq!(nonce(0x0102_0304, 0x0A0B_0C0D_0E0F_1011), [1, 2, 3, 4, 0x0A, 0x0B, 0x0C, 0x0D, 0x0E, 0x0F, 0x10, 0x11]);
    assert_eq!(nonce_salt(0xFFFF_0000_1234_5678, 0x0000_FFFF_0000_0001), 0x1234_5679);
}

#[test]
fn encrypted_frame_roundtrips_and_wrong_psk_fails() {
    let (sa, sb) = (0x1111_2222_3333_4444u64, 0xAAAA_BBBB_CCCC_DDDDu64);
    let k = derive_key("hunter2", sa, sb);
    let ns = nonce_salt(sa, sb);
    let aad = b"audio-header";
    let ct = seal(&k, ns, 7, aad, b"pcm-frame");
    assert_eq!(open(&k, ns, 7, aad, &ct).as_deref(), Some(&b"pcm-frame"[..]));
    let kbad = derive_key("wrong", sa, sb);
    assert!(open(&kbad, ns, 7, aad, &ct).is_none());
}

fn f(b: u8) -> Vec<u8> {
    vec![b]
}

#[test]
fn in_order() {
    let mut j = JitterBuffer::new(3);
    j.push(0, f(0));
    j.push(1, f(1));
    assert_eq!(j.pop(), Pop::Frame(f(0)));
    assert_eq!(j.pop(), Pop::Frame(f(1)));
    assert_eq!(j.pop(), Pop::Starved);
}

#[test]
fn out_of_order_is_reordered() {
    let mut j = JitterBuffer::new(3);
    j.push(2, f(2));
    j.push(0, f(0));
    j.push(1, f(1));
    assert_eq!(j.pop(), Pop::Frame(f(0)));
    assert_eq!(j.pop(), Pop::Frame(f(1)));
    assert_eq!(j.pop(), Pop::Frame(f(2)));
}

#[test]
fn missing_frame_becomes_gap_once_enough_buffered() {
    let mut j = JitterBuffer::new(2);
    j.push(1, f(1));
    j.push(2, f(2));
    assert_eq!(j.pop(), Pop::Gap);
    assert_eq!(j.pop(), Pop::Frame(f(1)));
    assert_eq!(j.pop(), Pop::Frame(f(2)));
}

#[test]
fn waits_when_not_enough_buffered() {
    let mut j = JitterBuffer::new(3);
    j.push(1, f(1));
    assert_eq!(j.pop(), Pop::Starved);
    j.push(0, f(0));
    assert_eq!(j.pop(), Pop::Frame(f(0)));
    assert_eq!(j.pop(), Pop::Frame(f(1)));
}

#[test]
fn drops_stale_frames() {
    let mut j = JitterBuffer::new(2);
    j.push(0, f(0));
    assert_eq!(j.pop(), Pop::Frame(f(0)));
    j.push(0, f(9));
    assert_eq!(j.buffered(), 0);
}

#[test]
fn duplicate_push_keeps_latest_payload() {
    let mut j = JitterBuffer::new(3);
    j.push(0, f(1));
    j.push(0, f(2));
    assert_eq!(j.buffered(), 1);
    assert_eq!(j.pop(), Pop::Frame(f(2)));
}

#[test]
fn audio_roundtrip() {
    let h = AudioHeader { flags: 0, seq: 42, ts_us: 123456 };
    let mut out = Vec::new();
    encode_audio(&h, &[1, 2, 3, 4], &mut out);
    let (got, payload) = decode_audio(&out).unwrap();
    assert_eq!(got, h);
    assert_eq!(payload, &[1, 2, 3, 4]);
}

#[test]
fn rejects_bad_magic_version_type_or_short() {
    assert!(decode_audio(&[0, 0, 0]).is_none());
    let mut out = Vec::new();
    encode_subscribe(7, &mut out);
    assert!(decode_audio(&out).is_none());
    assert_eq!(decode_subscribe(&out), Some(7));
}

#[test]
fn stream_info_roundtrip() {
    let info = StreamInfo { sample_rate: 48000, channels: 2, salt_a: 99, flags: 0 };
    let mut out = Vec::new();
    encode_stream_info(&info, &mut out);
    assert_eq!(decode_stream_info(&out), Some(info));
}

#[test]
fn wire_bytes_are_exact_big_endian() {
    let mut out = Vec::new();
    encode_audio(&AudioHeader { flags: 1, seq: 0x0102, ts_us: 0x0A0B }, &[9], &mut out);
    assert_eq!(out, vec![b'T', b'S', 1, 0, 1, 0, 0, 0, 0, 0, 0, 1, 2, 0, 0, 0, 0, 0, 0, 0x0A, 0x0B, 9]);
    encode_subscribe(0x0102_0304_0506_0708, &mut out);
    assert_eq!(out, vec![b'T', b'S', 1, 1, 1, 2, 3, 4, 5, 6, 7, 8]);
    let mut bad = out.clone();
    bad[2] = 2;
    assert!(decode_subscribe(&bad).is_none());
    assert!(decode_stream_info(&out).is_none());
}

#[test]
fn large_payload_splits_into_bounded_pieces() {
    let big: Vec<u8> = (0..5000u32).map(|i| (i % 251) as u8).collect();
    let pieces = split_payload(&big);
    assert_eq!(pieces.len(), 5);
    assert!(pieces.iter().all(|p| p.len() <= MAX_PAYLOAD_BYTES));
    assert_eq!(pieces.concat(), big);
    assert_eq!(MAX_PAYLOAD_BYTES % 4, 0);
    assert!(split_payload(&[]).is_empty());
}

#[test]
fn block_goes_out_as_sequential_bounded_datagrams() {
    let big: Vec<u8> = (0..5000u32).map(|i| (i % 251) as u8).collect();
    let mut src = SourceSession::new(48000, 2, String::new(), 5);
    let tick = std::cell::Cell::new(100u64);
    let ds = src.frame_payload(&big, || {
        tick.set(tick.get() + 1);
        tick.get()
    });
    assert_eq!(ds.len(), 5);
    let mut joined = Vec::new();
    for (i, d) in ds.iter().enumerate() {
        let (h, p) = decode_audio(d).unwrap();
        assert_eq!(h.seq, i as u64);
        assert_eq!(h.flags, 0);
        assert_eq!(h.ts_us, 101 + i as u64);
        let end = std::cmp::min(1200 * (i + 1), big.len());
        assert_eq!(p, &big[1200 * i..end]);
        joined.extend_from_slice(p);
    }
    assert_eq!(joined, big);
    let next = src.frame(b"tail", 1);
    assert_eq!(decode_audio(&next).unwrap().0.seq, 5);
    assert!(src.frame_payload(&[], || 0).is_empty());
}

#[test]
fn clear_session_delivers_frames_in_sequence() {
    let mut src = SourceSession::new(48000, 2, String::new(), 5);
    let mut sub = Vec::new();
    encode_subscribe(77, &mut sub);
    let reply = src.on_datagram(&sub).unwrap();
    assert_eq!(
        decode_stream_info(&reply),
        Some(StreamInfo { sample_rate: 48000, channels: 2, salt_a: 5, flags: 0 })
    );
    assert!(src.on_datagram(&[1, 2, 3]).is_none());
    let mut sink = SinkSession::new(None, 0);
    let d0 = src.frame(b"abcd", 10);
    let d1 = src.frame(b"efgh", 20);
    assert_eq!(sink.accept(&d0), Some((0, b"abcd".to_vec())));
    assert_eq!(sink.accept(&d1), Some((1, b"efgh".to_vec())));
    assert_eq!(sink.accept(&reply), None);
}

#[test]
fn encrypted_session_roundtrips_and_rejects_replay_and_wrong_key() {
    let salt_b = 0xAAAA_BBBB_CCCC_DDDDu64;
    let salt_a = 0x1111_2222_3333_4444u64;
    let mut src = SourceSession::new(48000, 2, "hunter2".to_string(), salt_a);
    let mut sub = Vec::new();
    encode_subscribe(salt_b, &mut sub);
    let info = decode_stream_info(&src.on_datagram(&sub).unwrap()).unwrap();
    assert_eq!(info.flags, 1);
    let key = derive_key("hunter2", info.salt_a, salt_b);
    let mut sink = SinkSession::new(Some(key), nonce_salt(info.salt_a, salt_b));
    let d0 = src.frame(b"pcm-frame", 1);
    let (h, payload) = decode_audio(&d0).unwrap();
    assert_eq!(h.flags, 1);
    assert_ne!(payload, b"pcm-frame");
    assert_eq!(sink.accept(&d0), Some((0, b"pcm-frame".to_vec())));
    assert_eq!(sink.accept(&d0), None);
    let mut wrong = SinkSession::new(Some(derive_key("wrong", info.salt_a, salt_b)), nonce_salt(info.salt_a, salt_b));
    let d1 = src.frame(b"next", 2);
    assert_eq!(wrong.accept(&d1), None);
    let mut keyless = SinkSession::new(None, 0);
    assert_eq!(keyless.accept(&d1), None);
}

#[test]
fn cooldown_spaces_corrections() {
    let mut g = DriftCooldown::new(2);
    assert_eq!(g.decide(true, false), DriftAction::Hold);
    assert_eq!(g.decide(true, false), DriftAction::Hold);
    assert_eq!(g.decide(true, false), DriftAction::DropChunk);
    assert_eq!(g.decide(false, true), DriftAction::Hold);
    assert_eq!(g.decide(false, true), DriftAction::Hold);
    assert_eq!(g.decide(false, true), DriftAction::InsertSilence);
    assert_eq!(g.decide(false, false), DriftAction::Hold);
    assert_eq!(g.decide(false, false), DriftAction::Hold);
    assert_eq!(g.decide(false, false), DriftAction::Hold);
    assert_eq!(g.decide(true, false), DriftAction::DropChunk);
}

#[test]
fn drift_ledger_settles_in_whole_frames() {
    let mut l = DriftLedger::new();
    assert_eq!(l.settle(100, 2), (0, 0));
    l.request(DriftAction::DropChunk, 960);
    l.request(DriftAction::Hold, 960);
    assert_eq!(l.settle(301, 2), (300, 0));
    assert_eq!(l.settle(1000, 2), (660, 0));
    assert_eq!(l.settle(1000, 2), (0, 0));
    l.request(DriftAction::InsertSilence, 12);
    assert_eq!(l.settle(0, 6), (0, 6));
    assert_eq!(l.settle(4, 6), (0, 6));
    assert_eq!(l.settle(4, 6), (0, 0));
}

struct SmoothedLevel {
    target: f32,
    margin: f32,
    ema: f32,
    primed: bool,
    gate: DriftCooldown,
}

impl SmoothedLevel {
    fn new(target: f32, margin: f32, cooldown: u32) -> Self {
        SmoothedLevel { target, margin, ema: target, primed: false, gate: DriftCooldown::new(cooldown) }
    }

    fn observe(&mut self, level: f32) -> DriftAction {
        self.ema = if self.primed { 0.05 * level + 0.95 * self.ema } else { level };
        self.primed = true;
        self.gate.decide(self.ema > self.target + self.margin, self.ema < self.target - self.margin)
    }
}

fn drive(c: &mut SmoothedLevel, level: f32, n: usize) -> DriftAction {
    let mut last = DriftAction::Hold;
    for _ in 0..n {
        last = c.observe(level);
    }
    last
}

#[test]
fn high_buffer_asks_to_drop() {
    let mut c = SmoothedLevel::new(100.0, 20.0, 2);
    assert_eq!(drive(&mut c, 200.0, 3), DriftAction::DropChunk);
}

#[test]
fn low_buffer_asks_to_insert() {
    let mut c = SmoothedLevel::new(100.0, 20.0, 2);
    assert_eq!(drive(&mut c, 10.0, 3), DriftAction::InsertSilence);
}

#[test]
fn on_target_does_nothing() {
    let mut c = SmoothedLevel::new(100.0, 20.0, 2);
    assert_eq!(drive(&mut c, 100.0, 3), DriftAction::Hold);
}

#[test]
fn cooldown_prevents_back_to_back_corrections() {
    let mut c = SmoothedLevel::new(100.0, 20.0, 5);
    let _ = drive(&mut c, 200.0, 6);
    assert_eq!(c.observe(200.0), DriftAction::Hold);
}

#[test]
fn send_block_needs_a_live_subscriber() {
    assert!(peer_live(true, 0));
    assert!(peer_live(true, 4999));
    assert!(!peer_live(true, PEER_TIMEOUT_MS));
    assert!(!peer_live(false, 0));
    let big = vec![7u8; 2500];
    let mut src = SourceSession::new(48000, 2, String::new(), 5);
    assert!(src.send_block(false, &big, || 1).is_none());
    let ds = src.send_block(true, &big, || 1).unwrap();
    assert_eq!(ds.len(), 3);
    let seqs: Vec<u64> = ds.iter().map(|d| decode_audio(d).unwrap().0.seq).collect();
    assert_eq!(seqs, vec![0, 1, 2]);
    assert_eq!(decode_audio(&ds[2]).unwrap().1.len(), 100);
}
