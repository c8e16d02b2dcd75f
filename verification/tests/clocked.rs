use tcp_streamer::audio::engine::device::{ConfigCandidate, SampleFmt};
use tcp_streamer::audio::clocked::{
    clocked_adaptive_range, clocked_pace, clocked_pick_config, clocked_prefill_and_high_water, clocked_ring_ms,
    clocked_ring_samples, clocked_tick_us, clocked_tos,
};

fn c(channels: u16, format: SampleFmt, min_rate: u32, max_rate: u32) -> ConfigCandidate {
    ConfigCandidate { channels, format, min_rate, max_rate }
}

#[test]
fn clocked_ring_has_device_floors() {
    assert_eq!(clocked_ring_ms(true, 2000), 8000);
    assert_eq!(clocked_ring_ms(false, 2000), 5000);
    assert_eq!(clocked_ring_ms(false, 9000), 9000);
    assert_eq!(clocked_ring_samples(48000, 5000), 480000);
    assert_eq!(clocked_prefill_and_high_water(48000), (48000, 52800));
}

#[test]
fn clocked_adaptive_band_is_narrowed_by_user_bounds() {
    assert_eq!(clocked_adaptive_range(true, 1000, 20000), (4000, 12000));
    assert_eq!(clocked_adaptive_range(false, 3000, 4000), (3000, 4000));
    assert_eq!(clocked_adaptive_range(false, 0, 9000), (2000, 6000));
}

#[test]
fn clocked_tos_defaults_to_expedited_forwarding() {
    assert_eq!(clocked_tos("voip"), 0xB8);
    assert_eq!(clocked_tos("lowdelay"), 0x10);
    assert_eq!(clocked_tos("throughput"), 0x08);
    assert_eq!(clocked_tos("besteffort"), 0x00);
    assert_eq!(clocked_tos("VoIP"), 0xB8);
    assert_eq!(clocked_tos(""), 0xB8);
}

#[test]
fn clocked_config_prefers_stereo_by_format_then_any_stereo() {
    let cands = vec![
        c(1, SampleFmt::F32, 8000, 48000),
        c(2, SampleFmt::U16, 8000, 48000),
        c(2, SampleFmt::I16, 8000, 48000),
        c(2, SampleFmt::F32, 8000, 44100),
    ];
    assert_eq!(clocked_pick_config(&cands, 48000), Some(2));
    assert_eq!(clocked_pick_config(&cands, 44100), Some(3));
    let only_i32 = vec![c(2, SampleFmt::I32, 8000, 96000), c(6, SampleFmt::F32, 8000, 96000)];
    assert_eq!(clocked_pick_config(&only_i32, 48000), Some(0));
    assert_eq!(clocked_pick_config(&only_i32, 192000), None);
    assert_eq!(clocked_pick_config(&[], 48000), None);
}

#[test]
fn clocked_pacing_sleeps_to_the_tick_or_catches_up() {
    assert_eq!(clocked_tick_us(480, 48000), 10_000);
    assert_eq!(clocked_pace(1_000, 5_000, 10_000, 10, 100), (4_000, 15_000));
    assert_eq!(clocked_pace(1_000, 5_000, 10_000, 101, 100), (0, 11_000));
    assert_eq!(clocked_pace(100_000, 50_000, 10_000, 0, 100), (0, 60_000));
    assert_eq!(clocked_pace(300_000, 50_000, 10_000, 0, 100), (0, 310_000));
}
