//! Decisions of the clock-paced streaming engine, which sends one chunk per
//! tick of a fixed clock: its buffer sizing, DSCP mapping, capture
//! configuration choice and pacing.

use super::engine::device::{ConfigCandidate, SampleFmt};
use crate::text::same_text;
use vstd::prelude::*;

verus! {

/// The ring duration: at least 8 s for loopback capture and 5 s otherwise.
pub open spec fn clocked_ring_ms_spec(is_loopback: bool, requested: u32) -> u32 {
    let floor: u32 = if is_loopback {
        8000
    } else {
        5000
    };
    if requested >= floor {
        requested
    } else {
        floor
    }
}

/// The ring duration for the requested one: the request, raised to the
/// floor (8000 ms for loopback capture, 5000 ms otherwise) when below it.
pub fn clocked_ring_ms(is_loopback: bool, requested: u32) -> (ms: u32)
    ensures
        ms == clocked_ring_ms_spec(is_loopback, requested),
        ms >= requested,
        ms >= if is_loopback {
            8000u32
        } else {
            5000u32
        },
        ms == requested || ms == if is_loopback {
            8000u32
        } else {
            5000u32
        },
{
    let floor: u32 = if is_loopback {
        8000
    } else {
        5000
    };
    if requested >= floor {
        requested
    } else {
        floor
    }
}

/// The ring lasts the larger of the requested duration and the floor (8 s
/// for loopback capture, 5 s otherwise): never shorter than asked, never
/// below the floor, and a request at or above the floor is kept as is.
pub proof fn lemma_clocked_ring_is_max_of_request_and_floor(is_loopback: bool, requested: u32)
    ensures
        ({
            let ms = clocked_ring_ms_spec(is_loopback, requested);
            let floor: u32 = if is_loopback {
                8000
            } else {
                5000
            };
            &&& ms >= requested
            &&& ms >= floor
            &&& (ms == requested || ms == floor)
            &&& (requested >= floor ==> ms == requested)
            &&& (requested < floor ==> ms == floor)
        }),
{
}

/// Ring capacity in stereo samples at `sample_rate` for `ms` milliseconds.
pub fn clocked_ring_samples(sample_rate: u32, ms: u32) -> (n: usize)
    requires
        sample_rate * 2 <= usize::MAX,
        sample_rate * 2 * ms <= usize::MAX,
    ensures
        n == sample_rate * 2 * ms / 1000,
{
    sample_rate as usize * 2 * ms as usize / 1000
}

/// The adaptive band: loopback capture between 4 s and 12 s, other inputs
/// between 2 s and 6 s, narrowed by the user's bounds.
pub fn clocked_adaptive_range(is_loopback: bool, min_ms: u32, max_ms: u32) -> (r: (u32, u32))
    ensures
        r.0 == (if is_loopback {
            if min_ms >= 4000 { min_ms } else { 4000 }
        } else {
            if min_ms >= 2000 { min_ms } else { 2000 }
        }),
        r.1 == (if is_loopback {
            if max_ms <= 12000 { max_ms } else { 12000 }
        } else {
            if max_ms <= 6000 { max_ms } else { 6000 }
        }),
{
    let (lo, hi): (u32, u32) = if is_loopback {
        (4000, 12000)
    } else {
        (2000, 6000)
    };
    (
        if min_ms >= lo {
            min_ms
        } else {
            lo
        },
        if max_ms <= hi {
            max_ms
        } else {
            hi
        },
    )
}

/// The TOS byte for a DSCP strategy name (exact, case-sensitive names;
/// anything else gets expedited forwarding).
pub open spec fn clocked_tos_spec(strategy: Seq<char>) -> u8 {
    if strategy == "voip"@ {
        0xB8
    } else if strategy == "lowdelay"@ {
        0x10
    } else if strategy == "throughput"@ {
        0x08
    } else if strategy == "besteffort"@ {
        0x00
    } else {
        0xB8
    }
}

/// The TOS byte for a DSCP strategy name.
pub fn clocked_tos(strategy: &str) -> (tos: u8)
    ensures
        tos == clocked_tos_spec(strategy@),
{
    if same_text(strategy, "voip") {
        0xB8
    } else if same_text(strategy, "lowdelay") {
        0x10
    } else if same_text(strategy, "throughput") {
        0x08
    } else if same_text(strategy, "besteffort") {
        0x00
    } else {
        0xB8
    }
}

/// Samples buffered before the first send (one second at `sample_rate`) and
/// the level above which the sender stops pacing and drains (a tenth of a
/// second more).
pub fn clocked_prefill_and_high_water(sample_rate: u32) -> (r: (usize, usize))
    requires
        sample_rate + sample_rate / 10 <= usize::MAX,
    ensures
        r.0 == sample_rate,
        r.1 == sample_rate + sample_rate / 10,
{
    let prefill = sample_rate as usize;
    (prefill, prefill + sample_rate as usize / 10)
}

/// Whether `c` is a stereo configuration of format `f` covering `rate`.
pub open spec fn stereo_at(c: ConfigCandidate, rate: u32) -> bool {
    c.channels == 2 && c.min_rate <= rate && rate <= c.max_rate
}

/// The first index in `cs` of a stereo configuration covering `rate` in
/// format `f`, if any.
pub open spec fn first_stereo_in(cs: Seq<ConfigCandidate>, rate: u32, f: SampleFmt) -> Option<int>
    decreases cs.len(),
{
    if cs.len() == 0 {
        None
    } else if stereo_at(cs[0], rate) && cs[0].format == f {
        Some(0)
    } else {
        match first_stereo_in(cs.drop_first(), rate, f) {
            Some(i) => Some(i + 1),
            None => None,
        }
    }
}

/// The first index of a stereo configuration covering `rate`, any format.
pub open spec fn first_stereo(cs: Seq<ConfigCandidate>, rate: u32) -> Option<int>
    decreases cs.len(),
{
    if cs.len() == 0 {
        None
    } else if stereo_at(cs[0], rate) {
        Some(0)
    } else {
        match first_stereo(cs.drop_first(), rate) {
            Some(i) => Some(i + 1),
            None => None,
        }
    }
}

/// The configuration the clock-paced engine opens: the first stereo one at the
/// rate in f32, else in i16, else in u16, else in any format.
pub open spec fn clocked_choice(cs: Seq<ConfigCandidate>, rate: u32) -> Option<int> {
    match first_stereo_in(cs, rate, SampleFmt::F32) {
        Some(i) => Some(i),
        None => match first_stereo_in(cs, rate, SampleFmt::I16) {
            Some(i) => Some(i),
            None => match first_stereo_in(cs, rate, SampleFmt::U16) {
                Some(i) => Some(i),
                None => first_stereo(cs, rate),
            },
        },
    }
}

/// Scans for the first stereo configuration covering `rate` (in format `f`
/// when `f` is given).
fn scan_stereo(cs: &[ConfigCandidate], rate: u32, f: Option<SampleFmt>) -> (r: Option<usize>)
    ensures
        match f {
            Some(fmt) => r == (match first_stereo_in(cs@, rate, fmt) {
                Some(i) => Some(i as usize),
                None => None::<usize>,
            }),
            None => r == (match first_stereo(cs@, rate) {
                Some(i) => Some(i as usize),
                None => None::<usize>,
            }),
        },
{
    let n = cs.len();
    let mut i: usize = 0;
    assert(cs@.skip(0) =~= cs@);
    while i < n
        invariant
            n == cs@.len(),
            i <= n,
            match f {
                Some(fmt) => first_stereo_in(cs@, rate, fmt) == (match first_stereo_in(cs@.skip(i as int), rate, fmt) {
                    Some(k) => Some(k + i),
                    None => None::<int>,
                }),
                None => first_stereo(cs@, rate) == (match first_stereo(cs@.skip(i as int), rate) {
                    Some(k) => Some(k + i),
                    None => None::<int>,
                }),
            },
        decreases n - i,
    {
        let c = cs[i];
        let hit = c.channels == 2 && c.min_rate <= rate && rate <= c.max_rate && match f {
            Some(fmt) => c.format == fmt,
            None => true,
        };
        proof {
            assert(cs@.skip(i as int)[0] == c);
            assert(cs@.skip(i as int).drop_first() =~= cs@.skip(i + 1));
        }
        if hit {
            return Some(i);
        }
        i = i + 1;
    }
    proof {
        assert(cs@.skip(i as int).len() == 0);
    }
    None
}

/// The capture configuration the clock-paced engine opens (see `clocked_choice`).
pub fn clocked_pick_config(candidates: &[ConfigCandidate], rate: u32) -> (r: Option<usize>)
    ensures
        r == (match clocked_choice(candidates@, rate) {
            Some(i) => Some(i as usize),
            None => None::<usize>,
        }),
{
    match scan_stereo(candidates, rate, Some(SampleFmt::F32)) {
        Some(i) => Some(i),
        None => match scan_stereo(candidates, rate, Some(SampleFmt::I16)) {
            Some(i) => Some(i),
            None => match scan_stereo(candidates, rate, Some(SampleFmt::U16)) {
                Some(i) => Some(i),
                None => scan_stereo(candidates, rate, None),
            },
        },
    }
}

/// One strict-clock pacing step, in microseconds: how long to sleep and the
/// next tick. Above the high-water mark the sender drains without sleeping
/// and restarts the clock one tick ahead; otherwise it sleeps until the tick,
/// or, when behind, moves the tick on (restarting the clock when more than
/// 200 ms behind).
pub open spec fn clocked_pace_spec(now_us: u64, next_tick_us: u64, tick_us: u64, buffered: usize, high_water: usize) -> (u64, int) {
    if buffered > high_water {
        (0, now_us + tick_us)
    } else if now_us < next_tick_us {
        ((next_tick_us - now_us) as u64, next_tick_us + tick_us)
    } else if now_us - next_tick_us > 200_000 {
        (0, now_us + tick_us)
    } else {
        (0, next_tick_us + tick_us)
    }
}

/// One strict-clock pacing step (see `clocked_pace_spec`).
pub fn clocked_pace(now_us: u64, next_tick_us: u64, tick_us: u64, buffered: usize, high_water: usize) -> (r: (u64, u64))
    requires
        now_us + tick_us <= u64::MAX,
        next_tick_us + tick_us <= u64::MAX,
    ensures
        (r.0, r.1 as int) == clocked_pace_spec(now_us, next_tick_us, tick_us, buffered, high_water),
{
    if buffered > high_water {
        (0, now_us + tick_us)
    } else if now_us < next_tick_us {
        (next_tick_us - now_us, next_tick_us + tick_us)
    } else if now_us - next_tick_us > 200_000 {
        (0, now_us + tick_us)
    } else {
        (0, next_tick_us + tick_us)
    }
}

/// The pacing tick for chunks of `chunk_size` samples at `sample_rate`, in microseconds.
pub fn clocked_tick_us(chunk_size: u32, sample_rate: u32) -> (t: u64)
    requires
        sample_rate > 0,
    ensures
        t == chunk_size * 1_000_000 / (sample_rate as int),
{
    chunk_size as u64 * 1_000_000 / sample_rate as u64
}

/// Pacing never schedules the next tick more than 200 ms (less one tick)
/// behind the clock, and a sleep ends exactly at the pending tick, after
/// which the tick moves one period on.
pub proof fn lemma_clocked_pacing_bounded(now_us: u64, next_tick_us: u64, tick_us: u64, buffered: usize, high_water: usize)
    ensures
        ({
            let (sleep, next) = clocked_pace_spec(now_us, next_tick_us, tick_us, buffered, high_water);
            &&& next >= now_us - 200_000 + tick_us
            &&& (sleep > 0 ==> now_us + sleep == next_tick_us && next == next_tick_us + tick_us)
        }),
{
}

} // verus!
