use tcp_streamer::audio::chunked::{chunk_frame, hex_upper_bytes, ChunkedWriter};
use tcp_streamer::audio::error::AudioError;
use tcp_streamer::audio::stats::{BufferResizeEvent, LogEvent, LogRateLimiter};
use tcp_streamer::audio::wav_helper::create_wav_header;
use tcp_streamer::encoder::{flac_encoder_input, Codec};
use tcp_streamer::health::{HealthMonitor, HealthStatus};
use tcp_streamer::protocol::{Packet, PacketHeader, MAGIC};

#[test]
fn test_chunked_empty_write() {
    let mut writer = ChunkedWriter::new(Vec::new());
    let written = writer.write(&[]);
    assert_eq!(written, 0);
    assert!(writer.into_inner().is_empty());
}

#[test]
fn test_chunked_small_payload() {
    let mut writer = ChunkedWriter::new(Vec::new());
    let payload = b"Hello";
    writer.write_all(payload);
    let output = String::from_utf8(writer.into_inner()).unwrap();
    assert!(output.starts_with("5\r\n"), "Expected chunk size header");
    assert!(output.contains("Hello"));
    assert!(output.ends_with("\r\n"), "Expected chunk terminator");
}

#[test]
fn chunk_sizes_are_upper_hex() {
    assert_eq!(hex_upper_bytes(0), b"0".to_vec());
    assert_eq!(hex_upper_bytes(255), b"FF".to_vec());
    assert_eq!(hex_upper_bytes(4096), b"1000".to_vec());
    let data = vec![7u8; 26];
    let mut expected = b"1A\r\n".to_vec();
    expected.extend_from_slice(&data);
    expected.extend_from_slice(b"\r\n");
    assert_eq!(chunk_frame(&data), expected);
    let mut w = ChunkedWriter::new(Vec::new());
    w.write_all(b"ab");
    w.flush();
    w.write_all(b"c");
    assert_eq!(w.into_inner(), b"2\r\nab\r\n1\r\nc\r\n".to_vec());
}

#[test]
fn test_wav_header_length() {
    let header = create_wav_header(48000, 2, 16);
    assert_eq!(header.len(), 44, "WAV header should be exactly 44 bytes");
}

#[test]
fn test_wav_header_riff_marker() {
    let header = create_wav_header(44100, 1, 16);
    assert_eq!(&header[0..4], b"RIFF");
    assert_eq!(&header[8..12], b"WAVE");
    assert_eq!(&header[12..16], b"fmt ");
    assert_eq!(&header[36..40], b"data");
}

#[test]
fn test_wav_header_sample_rate_encoding() {
    let header = create_wav_header(48000, 2, 16);
    let encoded_rate = u32::from_le_bytes([header[24], header[25], header[26], header[27]]);
    assert_eq!(encoded_rate, 48000);
}

#[test]
fn test_wav_header_channels_encoding() {
    let header = create_wav_header(44100, 1, 16);
    let channels = u16::from_le_bytes([header[22], header[23]]);
    assert_eq!(channels, 1);
}

#[test]
fn test_wav_header_byte_rate_stereo() {
    let header = create_wav_header(48000, 2, 16);
    let byte_rate = u32::from_le_bytes([header[28], header[29], header[30], header[31]]);
    assert_eq!(byte_rate, 48000 * 2 * 2);
}

#[test]
fn test_wav_header_block_align() {
    let header = create_wav_header(48000, 2, 16);
    let block_align = u16::from_le_bytes([header[32], header[33]]);
    assert_eq!(block_align, 4);
}

#[test]
fn wav_header_sizes_are_unknown_and_format_is_pcm() {
    let header = create_wav_header(8000, 1, 8);
    assert_eq!(&header[4..8], &[0xFF, 0xFF, 0xFF, 0xFF]);
    assert_eq!(&header[40..44], &[0xFF, 0xFF, 0xFF, 0xFF]);
    assert_eq!(&header[16..22], &[16, 0, 0, 0, 1, 0]);
    assert_eq!(&header[28..36], &[0x40, 0x1F, 0, 0, 1, 0, 8, 0]);
}

#[test]
fn test_header_serialization() {
    let header = PacketHeader::new(42, 1024, 0);
    let bytes = header.to_bytes();
    let parsed = PacketHeader::from_bytes(&bytes).expect("Failed to parse header");

    assert_eq!(parsed.magic, MAGIC);
    assert_eq!(parsed.sequence, 42);
    assert_eq!(parsed.payload_size, 1024);
    assert_eq!(parsed.codec, 0);
}

#[test]
fn test_packet_creation() {
    let payload = vec![1, 2, 3, 4];
    let packet = Packet::new(100, payload.clone(), 1);

    assert_eq!(packet.header.sequence, 100);
    assert_eq!(packet.header.payload_size, 4);
    assert_eq!(packet.header.codec, 1);
    assert_eq!(packet.payload, payload);
}

#[test]
fn header_bytes_are_little_endian_and_bad_magic_is_refused() {
    let mut header = PacketHeader::new(0x0102_0304, 0x0A0B_0C0D, 2);
    header.timestamp_us = 0x1122_3344_5566_7788;
    let bytes = header.to_bytes();
    assert_eq!(
        bytes,
        [b'T', b'C', b'P', b'S', 0x88, 0x77, 0x66, 0x55, 0x44, 0x33, 0x22, 0x11, 4, 3, 2, 1, 0x0D, 0x0C, 0x0B, 0x0A, 2]
    );
    let mut bad = bytes;
    bad[0] = b'X';
    assert!(PacketHeader::from_bytes(&bad).is_none());
    let packet = Packet::new(1, vec![9, 8], 0);
    let wire = packet.to_bytes();
    assert_eq!(wire.len(), PacketHeader::SIZE + 2);
    assert_eq!(&wire[PacketHeader::SIZE..], &[9, 8]);
}

#[test]
fn codec_bytes_roundtrip() {
    assert_eq!(Codec::from(0), Codec::Pcm);
    assert_eq!(Codec::from(1), Codec::Flac);
    assert_eq!(Codec::from(2), Codec::Opus);
    assert_eq!(Codec::from(200), Codec::Pcm);
    for c in [Codec::Pcm, Codec::Flac, Codec::Opus] {
        assert_eq!(Codec::from(c.byte()), c);
    }
}

#[test]
fn flac_input_widens_samples_and_counts_whole_frames() {
    let pcm = [0x01, 0x00, 0xFF, 0xFF, 0x00, 0x80, 0x34, 0x12, 0x07];
    let (samples, frames) = flac_encoder_input(&pcm, 2);
    assert_eq!(samples, vec![1, -1, -32768, 0x1234]);
    assert_eq!(frames, 2);
    assert_eq!(flac_encoder_input(&pcm, 3).1, 1);
    assert_eq!(flac_encoder_input(&pcm, 0).1, 0);
    assert_eq!(flac_encoder_input(&[], 2), (vec![], 0));
}

#[test]
fn health_grades_follow_failures_and_fill() {
    let mut m = HealthMonitor::new(1000, 48000, 2);
    assert_eq!(m.status(), HealthStatus::Excellent);
    m.update_buffer_used(500);
    assert_eq!(m.status(), HealthStatus::Excellent);
    m.update_buffer_used(501);
    assert_eq!(m.status(), HealthStatus::Good);
    m.update_buffer_used(701);
    assert_eq!(m.status(), HealthStatus::Degraded);
    m.update_buffer_used(901);
    assert_eq!(m.status(), HealthStatus::Poor);
    m.update_buffer_used(0);
    m.increment_failures();
    assert_eq!(m.status(), HealthStatus::Good);
    for _ in 0..5 {
        m.increment_failures();
    }
    assert_eq!(m.tcp_failures(), 6);
    assert_eq!(m.status(), HealthStatus::Degraded);
    for _ in 0..5 {
        m.increment_failures();
    }
    assert_eq!(m.status(), HealthStatus::Poor);
    assert_eq!(HealthStatus::Poor.suggested_action(), "Reduce Bitrate (Critical)");
    assert_eq!(HealthStatus::Degraded.suggested_action(), "Reduce Bitrate");
    assert_eq!(HealthStatus::Good.suggested_action(), "Monitor");
    assert_eq!(HealthStatus::Excellent.suggested_action(), "Maintain");
}

#[test]
fn health_packet_deltas_restart_each_check() {
    let mut m = HealthMonitor::new(0, 44100, 1);
    m.increment_packets();
    m.increment_packets();
    assert_eq!(m.take_packet_delta(), (2, 2));
    m.increment_packets();
    assert_eq!(m.take_packet_delta(), (3, 1));
    assert_eq!(m.take_packet_delta(), (3, 0));
    assert_eq!(m.status(), HealthStatus::Excellent);
    m.update_buffer_used(1);
    assert_eq!(m.status(), HealthStatus::Poor);
    assert_eq!((m.sample_rate(), m.channels(), m.ring_buffer_size(), m.ring_buffer_used(), m.packets_sent()), (44100, 1, 0, 1, 3));
}

#[test]
fn log_limiter_admits_five_per_window() {
    let mut l = LogRateLimiter::new();
    let admitted = (0..8).filter(|_| l.allow(2000)).count();
    assert_eq!(admitted, 5);
    assert!(!l.allow(3000));
    assert!(l.allow(3001));
    assert!(l.allow(3500));
}

#[test]
fn error_messages_match_their_variants() {
    assert_eq!(AudioError::NoDeviceFound.message(), "No audio device found");
    assert_eq!(AudioError::NoSupportedConfig.message(), "No supported audio configuration found");
    assert_eq!(AudioError::NetworkError("down".to_string()).message(), "Network error: down");
    assert_eq!(AudioError::DeviceNotFound("mic".to_string()).message(), "Device not found: mic");
    assert_eq!(AudioError::StreamBuildError("x".to_string()).message(), "Failed to build audio stream: x");
    assert_eq!(AudioError::StreamPlayError("y".to_string()).message(), "Failed to play audio stream: y");
    assert_eq!(AudioError::ChannelError("z".to_string()).message(), "Internal channel error: z");
    assert_eq!(AudioError::ConnectionFailed("c".to_string()).message(), "Connection failed: c");
    assert_eq!(AudioError::IpDetectionFailed("i".to_string()).message(), "IP detection failed: i");
}

#[test]
fn events_hold_their_fields() {
    let e = LogEvent { timestamp: "12:00:00".to_string(), level: "info".to_string(), message: "hi".to_string() };
    assert_eq!(e.level, "info");
    let r = BufferResizeEvent { new_size_ms: 250, reason: "Stable".to_string() };
    assert_eq!(r.new_size_ms, 250);
}

#[test]
fn header_at_time_stamps_the_reading_or_zero() {
    let h = PacketHeader::at_time(7, 64, 1, Some(1_700_000_000_000_000));
    assert_eq!(h.magic, MAGIC);
    assert_eq!(h.timestamp_us, 1_700_000_000_000_000);
    assert_eq!((h.sequence, h.payload_size, h.codec), (7, 64, 1));
    assert_eq!(PacketHeader::at_time(7, 64, 1, None).timestamp_us, 0);
    assert!(PacketHeader::new(1, 2, 0).timestamp_us > 0);
}
