use tcp_streamer::audio::engine::sender::{
    OutageAction, RetryAction, SenderConfig, SenderState, WriteOutcome, DISCONNECT_FLUSH_THRESHOLD_MS,
};
use tcp_streamer::audio::manager::{CommandKind, SlotStep, StreamSlot};
use tcp_streamer::audio::transport::udp::crypto::{derive_key, nonce_salt};
use tcp_streamer::audio::transport::udp::packet::{decode_stream_info, encode_subscribe};
use tcp_streamer::audio::transport::udp::session::{SinkSession, SourceSession};

fn config(is_server: bool, auto_reconnect: bool, wav_format: bool) -> SenderConfig {
    SenderConfig { is_server, auto_reconnect, wav_format, prefill_samples: 19200, chunk_samples: 1024, capture_rate: 48000 }
}

#[test]
fn client_backoff_doubles_with_jitter_and_resets_on_connect() {
    let mut s = SenderState::new(config(false, true, false));
    assert!(s.is_running() && !s.is_connected());
    assert_eq!(s.on_connect_failed(500), RetryAction::RetryAfter(2000));
    assert_eq!(s.on_connect_failed(999), RetryAction::RetryAfter(4499));
    assert_eq!(s.on_connect_failed(0), RetryAction::RetryAfter(7500));
    assert_eq!(s.on_connect_failed(500), RetryAction::RetryAfter(16000));
    assert_eq!(s.on_connect_failed(500), RetryAction::RetryAfter(32000));
    assert_eq!(s.on_connect_failed(500), RetryAction::RetryAfter(60000));
    assert_eq!(s.on_connect_failed(500), RetryAction::RetryAfter(60000));
    s.on_connected();
    assert!(s.is_connected());
    assert_eq!(s.on_connect_failed(250), RetryAction::RetryAfter(2000));
}

#[test]
fn client_without_reconnect_stops_on_first_failure() {
    let mut s = SenderState::new(config(false, false, false));
    assert_eq!(s.on_connect_failed(123), RetryAction::Stop);
    assert!(!s.is_running());
    let mut w = SenderState::new(config(false, false, false));
    w.on_connected();
    w.on_write(WriteOutcome::WouldBlock);
    assert!(w.is_connected() && w.is_running());
    w.on_write(WriteOutcome::Failed);
    assert!(!w.is_connected() && !w.is_running());
}

#[test]
fn server_survives_write_errors_and_owes_header_per_connection() {
    let mut s = SenderState::new(config(true, false, true));
    assert!(!s.header_due() || !s.is_connected());
    s.on_accepted(false);
    assert!(s.header_due());
    s.on_header_sent();
    assert!(!s.header_due());
    s.on_write(WriteOutcome::Failed);
    assert!(s.is_running() && !s.is_connected());
    s.on_accepted(true);
    assert!(s.use_chunked());
    assert!(s.header_due());
    let mut pcm = SenderState::new(config(true, true, false));
    pcm.on_accepted(false);
    assert!(!pcm.header_due());
    pcm.on_accepted(true);
    assert!(pcm.header_due());
}

#[test]
fn prefill_gate_holds_until_enough_is_buffered() {
    let mut s = SenderState::new(config(false, true, false));
    s.on_connected();
    assert!(!s.is_starved(0));
    assert!(!s.prefill_ready(19199));
    assert!(s.prefill_ready(19200));
    assert!(s.prefill_ready(0));
    assert!(s.is_starved(1023));
    assert!(!s.is_starved(1024));
}

#[test]
fn outage_drains_then_flushes_and_requires_new_prefill() {
    let mut s = SenderState::new(config(false, true, false));
    s.on_connected();
    assert!(s.prefill_ready(20000));
    s.on_write(WriteOutcome::Failed);
    assert_eq!(s.outage(100_001, 10_000), OutageAction::Drain(9600));
    assert_eq!(s.outage(5_001, 10_000 + DISCONNECT_FLUSH_THRESHOLD_MS - 1), OutageAction::Drain(5000));
    assert_eq!(s.outage(777, 10_000 + DISCONNECT_FLUSH_THRESHOLD_MS), OutageAction::Flush(777));
    assert!(!s.prefill_ready(100));
    s.on_connected();
    assert_eq!(s.outage(10, 50_000), OutageAction::Drain(10));
    s.stop();
    assert!(!s.is_running());
}

#[test]
fn command_slot_keeps_one_stream() {
    let mut slot = StreamSlot::new();
    assert_eq!(slot.on_command(CommandKind::StartSource), SlotStep { stop_current: false, start: true });
    slot.on_started(true);
    assert!(slot.active());
    assert_eq!(slot.on_command(CommandKind::StartSink), SlotStep { stop_current: true, start: true });
    slot.on_started(false);
    assert!(!slot.active());
    assert_eq!(slot.on_command(CommandKind::Stop), SlotStep { stop_current: false, start: false });
    slot.on_started(true);
    assert_eq!(slot.on_command(CommandKind::Stop), SlotStep { stop_current: true, start: false });
    assert!(!slot.active());
}

#[test]
fn sink_set_up_from_stream_info_matches_source() {
    let salt_b = 0x0123_4567_89AB_CDEFu64;
    let mut src = SourceSession::new(44100, 2, "pw".to_string(), 0x55AA);
    let mut sub = Vec::new();
    encode_subscribe(salt_b, &mut sub);
    let info = decode_stream_info(&src.on_datagram(&sub).unwrap()).unwrap();
    let mut sink = SinkSession::for_stream("pw", &info, salt_b);
    let mut manual = SinkSession::new(Some(derive_key("pw", 0x55AA, salt_b)), nonce_salt(0x55AA, salt_b));
    let d = src.frame(&[1, 2, 3, 4], 99);
    assert_eq!(sink.accept(&d), Some((0, vec![1, 2, 3, 4])));
    assert_eq!(manual.accept(&d), Some((0, vec![1, 2, 3, 4])));
    let mut clear = SinkSession::for_stream("", &info, salt_b);
    assert_eq!(clear.accept(&d), None);
}
