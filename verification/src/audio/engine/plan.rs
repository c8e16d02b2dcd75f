//! Sizing and pacing decisions of the source and sink orchestrators, as
//! plain functions of their inputs (the orchestrators perform the I/O).

use super::latency::LatencyParams;
use vstd::prelude::*;

verus! {

/// Interleaved samples in `ms` milliseconds of `channels`-channel audio at `rate`.
pub open spec fn samples_in(rate: int, channels: int, ms: int) -> int {
    rate * channels * ms / 1000
}

/// `x` rounded down to a multiple of `m` (`m >= 1`).
pub open spec fn round_down(x: int, m: int) -> int {
    x - x % m
}

/// Milliseconds of audio the source ring is sized for: the profile's ring
/// length, or the top of the adaptive band when that is larger, so the
/// latency target can always grow into the ring.
pub fn source_ring_ms(lp: &LatencyParams) -> (ms: u32)
    ensures
        ms == if lp.adaptive_max_ms >= lp.ring_ms {
            lp.adaptive_max_ms
        } else {
            lp.ring_ms
        },
{
    if lp.adaptive_max_ms >= lp.ring_ms {
        lp.adaptive_max_ms
    } else {
        lp.ring_ms
    }
}

/// Ring capacity (stereo samples at the capture rate) for `capacity_ms`,
/// kept even so a partial push or pop can never split a stereo frame.
pub fn ring_capacity_samples(capture_rate: u32, capacity_ms: u32) -> (n: usize)
    requires
        capture_rate * 2 <= usize::MAX,
        capture_rate * 2 * capacity_ms <= usize::MAX,
    ensures
        n == round_down(samples_in(capture_rate as int, 2, capacity_ms as int), 2),
        n % 2 == 0,
{
    let raw = capture_rate as usize * 2 * capacity_ms as usize / 1000;
    raw - raw % 2
}

/// Samples to buffer before the first send (stereo at the capture rate).
pub fn prefill_samples(capture_rate: u32, prefill_ms: u32) -> (n: usize)
    requires
        capture_rate * 2 <= usize::MAX,
        capture_rate * 2 * prefill_ms <= usize::MAX,
    ensures
        n == samples_in(capture_rate as int, 2, prefill_ms as int),
{
    capture_rate as usize * 2 * prefill_ms as usize / 1000
}

/// Samples to drain per pass during a short disconnect: at most 100 ms of
/// stereo audio and at most what is buffered, rounded down to a whole frame.
pub fn disconnect_drain(capture_rate: u32, buffered: usize) -> (n: usize)
    requires
        capture_rate * 2 <= usize::MAX,
    ensures
        n == round_down(
            if capture_rate * 2 / 10 <= buffered {
                capture_rate * 2 / 10
            } else {
                buffered as int
            },
            2,
        ),
        n <= buffered,
        n % 2 == 0,
{
    let tenth = capture_rate as usize * 2 / 10;
    let amount = if tenth <= buffered {
        tenth
    } else {
        buffered
    };
    amount - amount % 2
}

/// The next reconnection delay: doubled, capped at `max_ms`.
pub fn next_retry_delay_ms(current_ms: u64, max_ms: u64) -> (d: u64)
    ensures
        d == if current_ms * 2 <= max_ms {
            current_ms * 2
        } else {
            max_ms as int
        },
{
    if current_ms <= max_ms / 2 {
        current_ms * 2
    } else {
        max_ms
    }
}

/// A retry delay with +/-500 ms of jitter taken from the clock's sub-second
/// nanoseconds, never below `min_ms`.
pub fn jittered_delay_ms(base_ms: u64, subsec_nanos: u32, min_ms: u64) -> (d: u64)
    requires
        base_ms + 1000 <= u64::MAX,
    ensures
        d == if base_ms + (subsec_nanos % 1000) - 500 >= min_ms {
            base_ms + (subsec_nanos % 1000) - 500
        } else {
            min_ms as int
        },
{
    let jitter = (subsec_nanos % 1000) as u64;
    if base_ms + jitter >= 500 && base_ms + jitter - 500 >= min_ms {
        base_ms + jitter - 500
    } else {
        min_ms
    }
}

/// Playback ring capacity in device samples: the profile's capacity (the
/// larger of ring and adaptive ceiling) in whole device frames, at least 512 frames.
pub fn sink_ring_samples(out_rate: u32, channels: usize, lp: &LatencyParams) -> (n: usize)
    requires
        1 <= channels <= u16::MAX,
        out_rate * channels <= usize::MAX,
        out_rate * channels * (if lp.adaptive_max_ms >= lp.ring_ms { lp.adaptive_max_ms } else { lp.ring_ms }) <= usize::MAX,
    ensures
        ({
            let cap = if lp.adaptive_max_ms >= lp.ring_ms {
                lp.adaptive_max_ms
            } else {
                lp.ring_ms
            };
            let ring = round_down(samples_in(out_rate as int, channels as int, cap as int), channels as int);
            n == if ring >= channels * 512 {
                ring
            } else {
                channels * 512
            }
        }),
        n % channels == 0,
{
    let cap = if lp.adaptive_max_ms >= lp.ring_ms {
        lp.adaptive_max_ms
    } else {
        lp.ring_ms
    };
    let raw = out_rate as usize * channels * cap as usize / 1000;
    proof {
        vstd::arithmetic::div_mod::lemma_fundamental_div_mod(raw as int, channels as int);
        assert((raw as int / channels as int) * channels <= raw) by (nonlinear_arith)
            requires
                raw == channels * (raw as int / channels as int) + raw as int % channels as int,
                raw as int % channels as int >= 0,
                channels >= 1,
        ;
    }
    let ring = raw / channels * channels;
    proof {
        vstd::arithmetic::div_mod::lemma_fundamental_div_mod(raw as int, channels as int);
        vstd::arithmetic::div_mod::lemma_mod_multiples_basic(raw as int / channels as int, channels as int);
        vstd::arithmetic::div_mod::lemma_mod_multiples_basic(512, channels as int);
        assert((raw as int / channels as int) * channels == channels * (raw as int / channels as int)) by (nonlinear_arith);
        assert(512 * (channels as int) == (channels as int) * 512) by (nonlinear_arith);
    }
    if ring >= channels * 512 {
        ring
    } else {
        channels * 512
    }
}

/// Frames the jitter buffer waits for before declaring one lost: the
/// latency floor in 20 ms packets, between 3 and 25.
pub fn lost_after_frames(adaptive_min_ms: u32) -> (n: usize)
    ensures
        n == if adaptive_min_ms / 20 < 3 {
            3
        } else if adaptive_min_ms / 20 > 25 {
            25
        } else {
            adaptive_min_ms / 20
        },
        3 <= n <= 25,
{
    let f = adaptive_min_ms / 20;
    if f < 3 {
        3
    } else if f > 25 {
        25
    } else {
        f as usize
    }
}

/// The standing playback occupancy the drift controller holds: the latency
/// floor in whole device frames.
pub fn sink_target_samples(out_rate: u32, channels: usize, adaptive_min_ms: u32) -> (n: usize)
    requires
        1 <= channels,
        out_rate * channels <= usize::MAX,
        out_rate * channels * adaptive_min_ms <= usize::MAX,
    ensures
        n == round_down(samples_in(out_rate as int, channels as int, adaptive_min_ms as int), channels as int),
        n % channels == 0,
{
    let raw = out_rate as usize * channels * adaptive_min_ms as usize / 1000;
    proof {
        vstd::arithmetic::div_mod::lemma_fundamental_div_mod(raw as int, channels as int);
        vstd::arithmetic::div_mod::lemma_mod_multiples_basic(raw as int / channels as int, channels as int);
        assert((raw as int / channels as int) * channels == channels * (raw as int / channels as int)) by (nonlinear_arith);
    }
    raw / channels * channels
}

/// Size of one drift correction: a twentieth of the target (at least 8
/// samples) rounded up to whole device frames.
pub fn drift_chunk(target_samples: usize, channels: usize) -> (n: usize)
    requires
        1 <= channels <= u16::MAX,
        target_samples <= u32::MAX,
    ensures
        ({
            let want = if target_samples / 20 >= 8 {
                target_samples / 20
            } else {
                8
            };
            n == (want + channels - 1) / (channels as int) * channels
        }),
        n % channels == 0,
{
    let want = if target_samples / 20 >= 8 {
        target_samples / 20
    } else {
        8
    };
    let frames = (want + channels - 1) / channels;
    proof {
        vstd::arithmetic::div_mod::lemma_mod_multiples_basic(frames as int, channels as int);
        assert(frames * channels <= want + channels) by (nonlinear_arith)
            requires
                frames == (want + channels - 1) / (channels as int),
                channels >= 1,
        ;
    }
    frames * channels
}

/// How many of `available` converted samples to skip for a pending drop of
/// `pending` samples: as many as possible, in whole frames.
pub fn drift_skip(pending: usize, available: usize, channels: usize) -> (n: usize)
    requires
        channels >= 1,
    ensures
        n == round_down(
            if pending <= available {
                pending as int
            } else {
                available as int
            },
            channels as int,
        ),
        n <= pending,
        n <= available,
        n % channels == 0,
{
    let m = if pending <= available {
        pending
    } else {
        available
    };
    proof {
        crate::audio::engine::pacing::lemma_round_down_to_multiple(m as int, channels as int);
    }
    m - m % channels
}

/// How many silent samples to insert after a decoded packet for a pending
/// insertion of `pending` samples: up to one packet's worth (at least one
/// frame), in whole frames.
pub fn drift_insert(pending: usize, available: usize, channels: usize) -> (n: usize)
    requires
        channels >= 1,
    ensures
        ({
            let cap = if available >= channels {
                available as int
            } else {
                channels as int
            };
            n == round_down(
                if pending <= cap {
                    pending as int
                } else {
                    cap
                },
                channels as int,
            )
        }),
        n <= pending,
        n % channels == 0,
{
    let cap = if available >= channels {
        available
    } else {
        channels
    };
    let m = if pending <= cap {
        pending
    } else {
        cap
    };
    proof {
        crate::audio::engine::pacing::lemma_round_down_to_multiple(m as int, channels as int);
    }
    m - m % channels
}

/// The sink's session salt: the clock's nanoseconds mixed with a fixed
/// odd constant (the salt travels in clear; it only has to differ between
/// sessions).
pub fn sink_salt(clock_nanos: u64) -> (s: u64)
    ensures
        s == clock_nanos ^ 0x9E37_79B9_7F4A_7C15u64,
{
    clock_nanos ^ 0x9E37_79B9_7F4A_7C15
}

} // verus!
