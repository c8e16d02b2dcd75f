use tcp_streamer::audio::engine::latency::{params, LatencyParams};
use tcp_streamer::audio::engine::plan::{
    disconnect_drain, drift_chunk, drift_insert, drift_skip, jittered_delay_ms, lost_after_frames, next_retry_delay_ms,
    prefill_samples, ring_capacity_samples, sink_ring_samples, source_ring_ms, sink_salt, sink_target_samples,
};

#[test]
fn ring_capacity_is_even() {
    assert_eq!(ring_capacity_samples(48000, 4000), 384000);
    assert_eq!(ring_capacity_samples(44100, 1), 88);
    assert_eq!(ring_capacity_samples(11025, 1), 22);
    assert_eq!(ring_capacity_samples(22050, 3), 132);
}

#[test]
fn prefill_is_stereo_samples_at_capture_rate() {
    assert_eq!(prefill_samples(48000, 200), 19200);
    assert_eq!(prefill_samples(44100, 0), 0);
}

#[test]
fn outage_drain_is_a_tenth_of_a_second_in_whole_frames() {
    assert_eq!(disconnect_drain(48000, 1_000_000), 9600);
    assert_eq!(disconnect_drain(48000, 501), 500);
    assert_eq!(disconnect_drain(48000, 0), 0);
}

#[test]
fn retry_delay_doubles_up_to_cap() {
    assert_eq!(next_retry_delay_ms(2000, 60000), 4000);
    assert_eq!(next_retry_delay_ms(40000, 60000), 60000);
    assert_eq!(next_retry_delay_ms(30000, 60000), 60000);
}

#[test]
fn jitter_is_plus_minus_half_a_second_with_a_floor() {
    assert_eq!(jittered_delay_ms(4000, 1_000_250, 2000), 3750);
    assert_eq!(jittered_delay_ms(4000, 999, 2000), 4499);
    assert_eq!(jittered_delay_ms(2000, 0, 2000), 2000);
    assert_eq!(jittered_delay_ms(0, 0, 2000), 2000);
}

#[test]
fn sink_ring_uses_larger_of_ring_and_ceiling_in_whole_frames() {
    let lp = params("balanced", false);
    assert_eq!(sink_ring_samples(48000, 2, &lp), 384000);
    assert_eq!(sink_ring_samples(48000, 6, &lp), 1152000);
    let tiny = tcp_streamer::audio::engine::latency::LatencyParams {
        ring_ms: 1,
        adaptive_min_ms: 1,
        adaptive_max_ms: 1,
        chunk_size: 1,
        prefill_ms: 1,
    };
    assert_eq!(sink_ring_samples(8000, 2, &tiny), 1024);
}

#[test]
fn lost_after_is_clamped() {
    assert_eq!(lost_after_frames(0), 3);
    assert_eq!(lost_after_frames(200), 10);
    assert_eq!(lost_after_frames(10_000), 25);
}

#[test]
fn drift_sizes_are_whole_frames() {
    assert_eq!(sink_target_samples(48000, 2, 200), 19200);
    assert_eq!(sink_target_samples(44100, 6, 333), 88110);
    assert_eq!(drift_chunk(19200, 2), 960);
    assert_eq!(drift_chunk(10, 6), 12);
    assert_eq!(drift_skip(100, 47, 2), 46);
    assert_eq!(drift_skip(7, 100, 2), 6);
    assert_eq!(drift_insert(100, 47, 2), 46);
    assert_eq!(drift_insert(100, 0, 6), 6);
    assert_eq!(drift_insert(5, 0, 6), 0);
}

#[test]
fn sink_salt_mixes_clock_with_constant() {
    assert_eq!(sink_salt(0), 0x9E37_79B9_7F4A_7C15);
    assert_eq!(sink_salt(0x9E37_79B9_7F4A_7C15), 0);
}

#[test]
fn source_ring_covers_the_adaptive_band() {
    let lp = LatencyParams { ring_ms: 4000, adaptive_min_ms: 100, adaptive_max_ms: 1500, chunk_size: 512, prefill_ms: 200 };
    assert_eq!(source_ring_ms(&lp), 4000);
    let lp = LatencyParams { ring_ms: 800, adaptive_min_ms: 100, adaptive_max_ms: 1500, chunk_size: 512, prefill_ms: 200 };
    assert_eq!(source_ring_ms(&lp), 1500);
}
