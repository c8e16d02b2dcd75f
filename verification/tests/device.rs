use tcp_streamer::audio::engine::device::{channel_score, format_score, negotiate, ConfigCandidate, Negotiated, SampleFmt};

fn c(channels: u16, format: SampleFmt, min_rate: u32, max_rate: u32) -> ConfigCandidate {
    ConfigCandidate {
        channels,
        format,
        min_rate,
        max_rate,
    }
}

#[test]
fn prefers_stereo_f32_at_exact_rate() {
    let cands = vec![
        c(1, SampleFmt::F32, 8000, 48000),
        c(2, SampleFmt::I16, 8000, 48000),
        c(2, SampleFmt::F32, 8000, 48000),
    ];
    assert_eq!(
        negotiate(&cands, 48000),
        Some(Negotiated {
            index: 2,
            capture_rate: 48000
        })
    );
}

#[test]
fn multichannel_beats_mono_when_no_stereo() {
    let cands = vec![
        c(1, SampleFmt::F32, 8000, 48000),
        c(16, SampleFmt::F32, 8000, 48000),
    ];
    assert_eq!(
        negotiate(&cands, 48000),
        Some(Negotiated {
            index: 1,
            capture_rate: 48000
        })
    );
}

#[test]
fn fewer_extra_channels_preferred() {
    let cands = vec![
        c(16, SampleFmt::F32, 8000, 48000),
        c(6, SampleFmt::F32, 8000, 48000),
    ];
    assert_eq!(negotiate(&cands, 48000).map(|n| n.index), Some(1));
}

#[test]
fn mono_only_device_is_accepted() {
    let cands = vec![c(1, SampleFmt::I16, 8000, 48000)];
    assert_eq!(
        negotiate(&cands, 48000),
        Some(Negotiated {
            index: 0,
            capture_rate: 48000
        })
    );
}

#[test]
fn unsupported_rate_clamps_to_range() {
    let cands = vec![c(2, SampleFmt::F32, 44100, 44100)];
    assert_eq!(
        negotiate(&cands, 48000),
        Some(Negotiated {
            index: 0,
            capture_rate: 44100
        })
    );
}

#[test]
fn closest_rate_wins_among_equal_channels() {
    let cands = vec![
        c(2, SampleFmt::F32, 96000, 96000),
        c(2, SampleFmt::F32, 8000, 44100),
    ];
    assert_eq!(
        negotiate(&cands, 48000),
        Some(Negotiated {
            index: 1,
            capture_rate: 44100
        })
    );
}

#[test]
fn exact_rate_beats_resampled_even_with_worse_format() {
    let cands = vec![
        c(2, SampleFmt::F32, 44100, 44100),
        c(2, SampleFmt::U16, 48000, 48000),
    ];
    assert_eq!(
        negotiate(&cands, 48000),
        Some(Negotiated {
            index: 1,
            capture_rate: 48000
        })
    );
}

#[test]
fn format_preference_breaks_ties() {
    let cands = vec![
        c(2, SampleFmt::U16, 8000, 48000),
        c(2, SampleFmt::I32, 8000, 48000),
        c(2, SampleFmt::I16, 8000, 48000),
        c(2, SampleFmt::F32, 8000, 48000),
    ];
    assert_eq!(negotiate(&cands, 48000).map(|n| n.index), Some(3));
}

#[test]
fn stereo_with_resample_beats_mono_at_exact_rate() {
    let cands = vec![
        c(1, SampleFmt::F32, 48000, 48000),
        c(2, SampleFmt::F32, 44100, 44100),
    ];
    assert_eq!(
        negotiate(&cands, 48000),
        Some(Negotiated {
            index: 1,
            capture_rate: 44100
        })
    );
}

#[test]
fn empty_candidates_yield_none() {
    assert_eq!(negotiate(&[], 48000), None);
}

#[test]
fn zero_channel_or_inverted_range_candidates_are_ignored() {
    let cands = vec![
        c(0, SampleFmt::F32, 8000, 48000),
        c(2, SampleFmt::F32, 48000, 8000),
        c(1, SampleFmt::I16, 8000, 48000),
    ];
    assert_eq!(negotiate(&cands, 48000).map(|n| n.index), Some(2));
}

#[test]
fn first_of_equally_good_candidates_wins() {
    let cands = vec![c(2, SampleFmt::F32, 8000, 48000), c(2, SampleFmt::F32, 8000, 48000)];
    assert_eq!(negotiate(&cands, 48000).map(|n| n.index), Some(0));
}

#[test]
fn rate_below_range_clamps_up() {
    let cands = vec![c(2, SampleFmt::I16, 96000, 192000)];
    assert_eq!(negotiate(&cands, 48000).map(|n| n.capture_rate), Some(96000));
}

#[test]
fn scores_follow_the_preference_order() {
    assert!(channel_score(2) < channel_score(6));
    assert!(channel_score(6) < channel_score(16));
    assert!(channel_score(16) < channel_score(1));
    assert!(format_score(SampleFmt::F32) < format_score(SampleFmt::I16));
    assert!(format_score(SampleFmt::I16) < format_score(SampleFmt::I32));
    assert!(format_score(SampleFmt::I32) < format_score(SampleFmt::U16));
}

#[test]
fn negotiate_answers_every_nonempty_list() {
    assert_eq!(
        negotiate(&[c(0, SampleFmt::F32, 8000, 48000)], 48000),
        Some(Negotiated { index: 0, capture_rate: 48000 })
    );
    assert_eq!(
        negotiate(&[c(2, SampleFmt::F32, 48000, 8000)], 44100),
        Some(Negotiated { index: 0, capture_rate: 48000 })
    );
    let cands = vec![c(0, SampleFmt::F32, 8000, 48000), c(1, SampleFmt::U16, 44100, 44100)];
    assert_eq!(negotiate(&cands, 48000), Some(Negotiated { index: 1, capture_rate: 44100 }));
    let unusable = vec![c(0, SampleFmt::I16, 8000, 48000), c(4, SampleFmt::F32, 48000, 8000)];
    assert_eq!(negotiate(&unusable, 48000).map(|n| n.index), Some(1));
    assert_eq!(negotiate(&[], 48000), None);
}
