use tcp_streamer::audio::constants::{
    ADAPTIVE_MIN_DEFAULT_MS, ADAPTIVE_MIN_LOOPBACK_MS, BUFFER_CHECK_INTERVAL_SECS, COMMAND_CHANNEL_CAPACITY,
    DISCONNECT_FLUSH_THRESHOLD_SECS, HEARTBEAT_INTERVAL_SECS, PREFILL_FRACTION,
};
use tcp_streamer::audio::engine::buffer::{adaptive_step, AdaptiveBuffer, GlitchWindow};
use tcp_streamer::audio::engine::capture::{resolve_buffer_size, BufferSize, SupportedBufferSize};
use tcp_streamer::audio::engine::convert::{mix_to_stereo, stereo_to_channels};
use tcp_streamer::audio::engine::pacing::{excess_samples, udp_backlog, BacklogAction, StarvationGate};
use tcp_streamer::audio::engine::pcm::{decode_pcm_i16_le, encode_pcm_i16_le};

const RATE: u32 = 48000;

#[test]
fn test_constants_are_positive() {
    assert!(BUFFER_CHECK_INTERVAL_SECS > 0);
    assert!(HEARTBEAT_INTERVAL_SECS > 0);
    assert!(COMMAND_CHANNEL_CAPACITY > 0);
    assert!(PREFILL_FRACTION > 0);
}

#[test]
fn test_buffer_constants_ordering() {
    assert!(ADAPTIVE_MIN_DEFAULT_MS < ADAPTIVE_MIN_LOOPBACK_MS, "Loopback devices should have larger min buffer");
    assert!(DISCONNECT_FLUSH_THRESHOLD_SECS < 60, "Flush threshold should be reasonable");
}

#[test]
fn initial_target_is_clamped() {
    assert_eq!(AdaptiveBuffer::new(2000, 8000, 500, 500, 3).target_ms(), 2000);
    assert_eq!(AdaptiveBuffer::new(2000, 8000, 500, 99000, 3).target_ms(), 8000);
    assert_eq!(AdaptiveBuffer::new(2000, 8000, 500, 4000, 3).target_ms(), 4000);
}

#[test]
fn glitch_raises_target_up_to_max() {
    let mut a = AdaptiveBuffer::new(2000, 3000, 500, 2000, 3);
    assert_eq!(a.on_tick(true), Some(2500));
    assert_eq!(a.on_tick(true), Some(3000));
    assert_eq!(a.on_tick(true), None);
    assert_eq!(a.target_ms(), 3000);
}

#[test]
fn stability_lowers_target_after_threshold() {
    let mut a = AdaptiveBuffer::new(2000, 8000, 500, 3000, 3);
    assert_eq!(a.on_tick(false), None);
    assert_eq!(a.on_tick(false), None);
    assert_eq!(a.on_tick(false), Some(2500));
    assert_eq!(a.on_tick(false), None);
    assert_eq!(a.on_tick(false), None);
    assert_eq!(a.on_tick(false), Some(2000));
    assert_eq!(a.on_tick(false), None);
    assert_eq!(a.on_tick(false), None);
    assert_eq!(a.on_tick(false), None);
}

#[test]
fn glitch_resets_stability_counter() {
    let mut a = AdaptiveBuffer::new(2000, 8000, 500, 3000, 3);
    a.on_tick(false);
    a.on_tick(false);
    a.on_tick(true);
    assert_eq!(a.target_ms(), 3500);
    assert_eq!(a.on_tick(false), None);
    assert_eq!(a.on_tick(false), None);
    assert_eq!(a.on_tick(false), Some(3000));
}

#[test]
fn inverted_band_and_zero_step_are_normalized() {
    let mut a = AdaptiveBuffer::new(1000, 500, 0, 9999, 0);
    assert_eq!(a.target_ms(), 1000);
    assert_eq!(a.on_tick(true), None);
    assert_eq!(a.target_ms(), 1000);
}

#[test]
fn no_excess_within_target_plus_margin() {
    let at_target = 48000 * 2 * 300 / 1000;
    let just_below_threshold = 48000 * 2 * 540 / 1000;
    assert_eq!(excess_samples(at_target, 300, 250, RATE, 2), 0);
    assert_eq!(excess_samples(just_below_threshold, 300, 250, RATE, 2), 0);
    assert_eq!(excess_samples(0, 300, 250, RATE, 2), 0);
}

#[test]
fn excess_above_threshold_drains_back_to_target() {
    let occupied = 48000 * 2 * 2000 / 1000;
    let target_samples = 48000 * 2 * 300 / 1000;
    assert_eq!(excess_samples(occupied, 300, 250, RATE, 2), occupied - target_samples);
}

#[test]
fn excess_is_always_frame_aligned() {
    let occupied = 48000 * 2;
    for target_ms in [3, 5, 7, 333] {
        let excess = excess_samples(occupied, target_ms, 0, 44100, 2);
        assert_eq!(excess % 2, 0, "target_ms={target_ms} gave odd excess");
        assert!(excess > 0);
    }
    let excess = excess_samples(100_003, 100, 0, 48000, 6);
    assert_eq!(excess % 6, 0);
}

#[test]
fn excess_scales_with_channels_and_rate() {
    let occupied = 44100;
    let target_samples = 44100 * 200 / 1000;
    assert_eq!(excess_samples(occupied, 200, 100, 44100, 1), occupied - target_samples);
}

#[test]
fn gate_does_not_fire_before_threshold() {
    let mut g = StarvationGate::new(250);
    assert!(!g.update(true, 0));
    assert!(!g.update(true, 100));
    assert!(!g.update(true, 249));
}

#[test]
fn gate_fires_once_at_threshold() {
    let mut g = StarvationGate::new(250);
    assert!(!g.update(true, 0));
    assert!(g.update(true, 250));
    assert!(!g.update(true, 300));
    assert!(!g.update(true, 10_000));
}

#[test]
fn gate_rearms_after_recovery() {
    let mut g = StarvationGate::new(250);
    assert!(!g.update(true, 0));
    assert!(g.update(true, 250));
    assert!(!g.update(false, 400));
    assert!(!g.update(true, 500));
    assert!(!g.update(true, 700));
    assert!(g.update(true, 750));
}

#[test]
fn gate_recovery_before_threshold_never_fires() {
    let mut g = StarvationGate::new(250);
    assert!(!g.update(true, 0));
    assert!(!g.update(false, 100));
    assert!(!g.update(true, 200));
    assert!(!g.update(true, 449));
    assert!(g.update(true, 450));
}

fn stereo_of<T: Copy>(data: &[T], channels: usize) -> Vec<T> {
    let mut out = Vec::new();
    mix_to_stereo(data, channels, &mut out);
    out
}

#[test]
fn mono_is_duplicated_to_both_channels() {
    assert_eq!(stereo_of(&[0.1f32, -0.2, 0.3], 1), vec![0.1, 0.1, -0.2, -0.2, 0.3, 0.3]);
}

#[test]
fn stereo_passes_through() {
    assert_eq!(stereo_of(&[0.1f32, -0.1, 0.2, -0.2], 2), vec![0.1, -0.1, 0.2, -0.2]);
}

#[test]
fn six_channels_keep_front_pair_only() {
    let data = [0.1f32, -0.1, 9.0, 9.0, 9.0, 9.0, 0.2, -0.2, 9.0, 9.0, 9.0, 9.0];
    assert_eq!(stereo_of(&data, 6), vec![0.1, -0.1, 0.2, -0.2]);
}

#[test]
fn trailing_partial_frame_is_ignored() {
    assert_eq!(stereo_of(&[0.1f32, -0.1, 0.5], 2), vec![0.1, -0.1]);
}

#[test]
fn zero_channels_is_a_noop() {
    assert!(stereo_of(&[1.0f32, 2.0], 0).is_empty());
}

#[test]
fn integer_samples_are_mixed_before_conversion() {
    assert_eq!(stereo_of(&[i16::MAX, i16::MIN, 7, 8, 9, 10], 3), vec![i16::MAX, i16::MIN, 8, 9]);
    assert_eq!(stereo_of(&[32768u16, 0], 1), vec![32768, 32768, 0, 0]);
}

#[test]
fn mixes_supported_channel_layouts_to_stereo() {
    let mut output = vec![99.0f32];

    mix_to_stereo(&[0.25, -0.5, 1.0], 1, &mut output);
    assert_eq!(output, [0.25, 0.25, -0.5, -0.5, 1.0, 1.0]);

    mix_to_stereo(&[0.25, -0.5, 1.0, -1.0], 2, &mut output);
    assert_eq!(output, [0.25, -0.5, 1.0, -1.0]);

    mix_to_stereo(&[0.1, 0.2, 0.3, 0.4, 0.5, 0.6, 1.1, 1.2, 1.3, 1.4, 1.5, 1.6], 6, &mut output);
    assert_eq!(output, [0.1, 0.2, 1.1, 1.2]);

    mix_to_stereo(&[0.1, 0.2, 0.3, 0.4, 9.9], 2, &mut output);
    assert_eq!(output, [0.1, 0.2, 0.3, 0.4]);

    mix_to_stereo(&[0.1, 0.2], 0, &mut output);
    assert!(output.is_empty());
}

fn average(l: f32, r: f32) -> f32 {
    (l + r) * 0.5
}

#[test]
fn spreads_stereo_to_device_channel_layouts() {
    let mut output = vec![99.0f32];

    stereo_to_channels(&[0.2, 0.4, -1.0, 1.0], 1, &mut output, 0.0, average);
    assert_eq!(output, [0.3, 0.0]);

    stereo_to_channels(&[0.1, -0.1, 0.2, -0.2], 2, &mut output, 0.0, average);
    assert_eq!(output, [0.1, -0.1, 0.2, -0.2]);

    stereo_to_channels(&[0.5, -0.5], 6, &mut output, 0.0, average);
    assert_eq!(output, [0.5, -0.5, 0.0, 0.0, 0.0, 0.0]);

    stereo_to_channels(&[0.1, 0.2, 9.9], 2, &mut output, 0.0, average);
    assert_eq!(output, [0.1, 0.2]);
    stereo_to_channels(&[0.1, 0.2], 0, &mut output, 0.0, average);
    assert!(output.is_empty());
}

#[test]
fn within_range_is_used_verbatim() {
    let s = SupportedBufferSize::Range { min: 64, max: 4096 };
    assert!(matches!(resolve_buffer_size(1024, &s), BufferSize::Fixed(1024)));
}

#[test]
fn below_min_clamps_up() {
    let s = SupportedBufferSize::Range { min: 256, max: 4096 };
    assert!(matches!(resolve_buffer_size(64, &s), BufferSize::Fixed(256)));
}

#[test]
fn above_max_clamps_down() {
    let s = SupportedBufferSize::Range { min: 64, max: 2048 };
    assert!(matches!(resolve_buffer_size(8192, &s), BufferSize::Fixed(2048)));
}

#[test]
fn unknown_range_falls_back_to_default() {
    assert!(matches!(resolve_buffer_size(1024, &SupportedBufferSize::Unknown), BufferSize::Default));
}

#[test]
fn zero_request_falls_back_to_default() {
    let s = SupportedBufferSize::Range { min: 64, max: 4096 };
    assert!(matches!(resolve_buffer_size(0, &s), BufferSize::Default));
}

#[test]
fn pcm16_encodes_little_endian_and_roundtrips() {
    let samples = [0i16, 1, -1, i16::MAX, i16::MIN, 0x1234];
    let mut bytes = Vec::new();
    encode_pcm_i16_le(&samples, &mut bytes);
    assert_eq!(bytes, vec![0, 0, 1, 0, 0xFF, 0xFF, 0xFF, 0x7F, 0x00, 0x80, 0x34, 0x12]);
    let mut back = Vec::new();
    decode_pcm_i16_le(&bytes, &mut back);
    assert_eq!(back, samples.to_vec());
}

#[test]
fn pcm16_decode_ignores_trailing_odd_byte() {
    let mut back = vec![5i16];
    decode_pcm_i16_le(&[0x01, 0x00, 0xFF], &mut back);
    assert_eq!(back, vec![1]);
}

#[test]
fn udp_backlog_discards_everything_without_subscriber() {
    assert_eq!(udp_backlog(false, 12345, 300, 250, RATE, 2), BacklogAction::DiscardAll(12345));
    assert_eq!(udp_backlog(false, 0, 300, 250, RATE, 2), BacklogAction::DiscardAll(0));
}

#[test]
fn udp_backlog_holds_latency_near_target_with_subscriber() {
    let at_target = (RATE as usize * 2 * 300) / 1000;
    assert_eq!(udp_backlog(true, at_target, 300, 250, RATE, 2), BacklogAction::SkipThenSend(0));
    let over = (RATE as usize * 2 * 600) / 1000 + 1;
    let expected = excess_samples(over, 300, 250, RATE, 2);
    assert_eq!(expected, over - at_target - 1);
    assert_eq!(udp_backlog(true, over, 300, 250, RATE, 2), BacklogAction::SkipThenSend(expected));
}

#[test]
fn glitch_window_counts_per_interval() {
    let mut w = GlitchWindow::new();
    assert_eq!(w.close(5), 5);
    assert_eq!(w.close(5), 0);
    assert_eq!(w.close(9), 4);
    assert_eq!(w.close(3), 0);
    assert_eq!(w.close(4), 1);
}

#[test]
fn adaptive_step_respects_enable_flag() {
    let mut a = AdaptiveBuffer::new(100, 500, 50, 100, 2);
    assert_eq!(adaptive_step(&mut a, false, 7), None);
    assert_eq!(a.target_ms(), 100);
    assert_eq!(adaptive_step(&mut a, true, 7), Some(150));
    assert_eq!(adaptive_step(&mut a, true, 0), None);
    assert_eq!(adaptive_step(&mut a, true, 0), Some(100));
    assert_eq!(a.target_ms(), 100);
}

#[test]
fn starvation_gate_fires_once_per_episode_on_first_due_call() {
    let mut g = StarvationGate::new(100);
    assert!(!g.update(true, 0));
    assert!(!g.update(true, 50));
    assert!(g.update(true, 100));
    assert!(!g.update(true, 500));
    assert!(!g.update(false, 600));
    assert!(!g.update(true, 700));
    assert!(!g.update(true, 650));
    assert!(!g.update(true, 799));
    assert!(g.update(true, 800));
    assert!(!g.update(true, 10_000));
}
