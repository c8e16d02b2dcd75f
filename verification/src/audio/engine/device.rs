//! Audio-config selection logic, decoupled from the audio backend.
//!
//! The engine normalizes everything to a fixed wire format (stereo s16le at
//! the configured output rate), so negotiation does not need the device to
//! match that format: any channel count works (mixed to stereo) and any
//! supported rate works (resampled internally). Preference order favors the
//! cheapest conversion: native stereo, then multichannel (front pair taken),
//! then mono; exact rate before resampled; float before integer formats.

use vstd::prelude::*;

verus! {

/// Sample format candidates we support.
#[derive(Clone, Copy, Debug, PartialEq, Eq, Structural)]
pub enum SampleFmt {
    F32,
    I16,
    U16,
    I32,
}

/// A simplified view of a device's supported stream-config range.
#[derive(Clone, Copy, Debug, PartialEq, Eq, Structural)]
pub struct ConfigCandidate {
    pub channels: u16,
    pub format: SampleFmt,
    pub min_rate: u32,
    pub max_rate: u32,
}

/// Result of [`negotiate`]: which candidate to open and at what rate.
#[derive(Clone, Copy, Debug, PartialEq, Eq, Structural)]
pub struct Negotiated {
    pub index: usize,
    /// Rate to open the device with: always inside the candidate's supported
    /// range. May differ from the requested rate; the engine resamples.
    pub capture_rate: u32,
}

/// Channel preference: stereo is free, extra channels are dropped (front pair
/// kept) so fewer extras are better, and mono loses stereo so it ranks last
/// among usable layouts.
pub open spec fn channel_rank(ch: u16) -> u32 {
    if ch == 2 {
        0
    } else if ch == 0 {
        u32::MAX
    } else if ch == 1 {
        10_000
    } else {
        (ch - 2) as u32
    }
}

/// Format preference: f32 is lossless for our pipeline, then by how cheaply
/// and faithfully the format converts to f32.
pub open spec fn format_rank(f: SampleFmt) -> u32 {
    match f {
        SampleFmt::F32 => 0,
        SampleFmt::I16 => 1,
        SampleFmt::I32 => 2,
        SampleFmt::U16 => 3,
    }
}

/// Whether a candidate can be opened at all.
pub open spec fn usable(c: ConfigCandidate) -> bool {
    c.channels > 0 && c.min_rate <= c.max_rate
}

/// The rate to open `c` with: the request clamped into its range.
pub open spec fn clamp_rate(c: ConfigCandidate, requested: u32) -> u32 {
    if requested < c.min_rate {
        c.min_rate
    } else if requested > c.max_rate {
        c.max_rate
    } else {
        requested
    }
}

/// How far the opened rate is from the request.
pub open spec fn rate_distance(c: ConfigCandidate, requested: u32) -> u32 {
    let r = clamp_rate(c, requested);
    if r >= requested {
        (r - requested) as u32
    } else {
        (requested - r) as u32
    }
}

/// Whether candidate `i` is preferred over candidate `j`: compared by channel
/// rank, then rate distance, then format rank, then position.
pub open spec fn preferred(cs: Seq<ConfigCandidate>, requested: u32, i: int, j: int) -> bool {
    let (a, b) = (cs[i], cs[j]);
    ||| channel_rank(a.channels) < channel_rank(b.channels)
    ||| (channel_rank(a.channels) == channel_rank(b.channels) && rate_distance(a, requested)
        < rate_distance(b, requested))
    ||| (channel_rank(a.channels) == channel_rank(b.channels) && rate_distance(a, requested)
        == rate_distance(b, requested) && format_rank(a.format) < format_rank(b.format))
    ||| (channel_rank(a.channels) == channel_rank(b.channels) && rate_distance(a, requested)
        == rate_distance(b, requested) && format_rank(a.format) == format_rank(b.format) && i < j)
}

/// Whether `n` is the choice among `cs`: the usable candidate preferred over
/// every other usable one, opened at its clamped rate.
pub open spec fn is_best(cs: Seq<ConfigCandidate>, requested: u32, n: Negotiated) -> bool {
    &&& 0 <= n.index < cs.len()
    &&& usable(cs[n.index as int])
    &&& n.capture_rate == clamp_rate(cs[n.index as int], requested)
    &&& forall|j: int|
        0 <= j < cs.len() && j != n.index && #[trigger] usable(cs[j]) ==> preferred(
            cs,
            requested,
            n.index as int,
            j,
        )
}

/// Whether `n` is the choice among `cs` when none is usable: the candidate
/// preferred over every other one, at its clamped rate.
pub open spec fn is_best_any(cs: Seq<ConfigCandidate>, requested: u32, n: Negotiated) -> bool {
    &&& 0 <= n.index < cs.len()
    &&& n.capture_rate == clamp_rate(cs[n.index as int], requested)
    &&& forall|j: int|
        0 <= j < cs.len() && j != n.index ==> #[trigger] preferred(cs, requested, n.index as int, j)
}

/// Whether some candidate in `cs` is usable.
pub open spec fn any_usable(cs: Seq<ConfigCandidate>) -> bool {
    exists|j: int| 0 <= j < cs.len() && #[trigger] usable(cs[j])
}

/// Channel preference score (lower is better).
pub fn channel_score(ch: u16) -> (s: u32)
    ensures
        s == channel_rank(ch),
{
    match ch {
        2 => 0,
        0 => u32::MAX,
        1 => 10_000,
        n => (n - 2) as u32,
    }
}

/// Format preference score (lower is better).
pub fn format_score(f: SampleFmt) -> (s: u32)
    ensures
        s == format_rank(f),
{
    match f {
        SampleFmt::F32 => 0,
        SampleFmt::I16 => 1,
        SampleFmt::I32 => 2,
        SampleFmt::U16 => 3,
    }
}

/// Picks the best candidate for the requested rate and the concrete rate to
/// open it with (the requested rate when supported, otherwise the closest
/// rate inside the candidate's range). Usable candidates (with channels and a
/// non-inverted rate range) always win; when none is usable the best of the
/// others is returned by the same preference. Returns `None` only when
/// `candidates` is empty.
pub fn negotiate(candidates: &[ConfigCandidate], requested_rate: u32) -> (r: Option<Negotiated>)
    ensures
        match r {
            Some(n) => if any_usable(candidates@) {
                is_best(candidates@, requested_rate, n)
            } else {
                is_best_any(candidates@, requested_rate, n)
            },
            None => candidates@.len() == 0,
        },
{
    match best_usable(candidates, requested_rate) {
        Some(b) => {
            assert(any_usable(candidates@)) by {
                assert(usable(candidates@[b.index as int]));
            }
            Some(b)
        },
        None => {
            if candidates.len() == 0 {
                None
            } else {
                assert(!any_usable(candidates@));
                Some(best_of_all(candidates, requested_rate))
            }
        },
    }
}

/// The best usable candidate, if any.
fn best_usable(candidates: &[ConfigCandidate], requested_rate: u32) -> (r: Option<Negotiated>)
    ensures
        match r {
            Some(n) => is_best(candidates@, requested_rate, n),
            None => forall|j: int| 0 <= j < candidates@.len() ==> !#[trigger] usable(candidates@[j]),
        },
{
    let ghost cs = candidates@;
    let mut best: Option<Negotiated> = None;
    let mut best_ch: u32 = 0;
    let mut best_dist: u32 = 0;
    let mut best_fmt: u32 = 0;
    let n = candidates.len();
    let mut i: usize = 0;
    while i < n
        invariant
            n == cs.len(),
            cs == candidates@,
            i <= n,
            match best {
                Some(b) => {
                    &&& b.index < i
                    &&& usable(cs[b.index as int])
                    &&& b.capture_rate == clamp_rate(cs[b.index as int], requested_rate)
                    &&& best_ch == channel_rank(cs[b.index as int].channels)
                    &&& best_dist == rate_distance(cs[b.index as int], requested_rate)
                    &&& best_fmt == format_rank(cs[b.index as int].format)
                    &&& forall|j: int|
                        0 <= j < i && j != b.index && #[trigger] usable(cs[j]) ==> preferred(
                            cs,
                            requested_rate,
                            b.index as int,
                            j,
                        )
                },
                None => forall|j: int| 0 <= j < i ==> !#[trigger] usable(cs[j]),
            },
        decreases n - i,
    {
        let c = candidates[i];
        if c.channels > 0 && c.min_rate <= c.max_rate {
            let rate = if requested_rate < c.min_rate {
                c.min_rate
            } else if requested_rate > c.max_rate {
                c.max_rate
            } else {
                requested_rate
            };
            let dist = if rate >= requested_rate {
                rate - requested_rate
            } else {
                requested_rate - rate
            };
            let ch = channel_score(c.channels);
            let fmt = format_score(c.format);
            let better = match best {
                None => true,
                Some(_) => ch < best_ch || (ch == best_ch && dist < best_dist) || (ch == best_ch
                    && dist == best_dist && fmt < best_fmt),
            };
            if better {
                proof {
                    if let Some(b) = best {
                        assert forall|j: int|
                            0 <= j < i + 1 && j != i && #[trigger] usable(cs[j]) implies preferred(
                            cs,
                            requested_rate,
                            i as int,
                            j,
                        ) by {
                            if j != b.index {
                                assert(preferred(cs, requested_rate, b.index as int, j));
                            }
                        }
                    }
                }
                best = Some(Negotiated { index: i, capture_rate: rate });
                best_ch = ch;
                best_dist = dist;
                best_fmt = fmt;
            } else {
                proof {
                    let b = best.unwrap();
                    assert(preferred(cs, requested_rate, b.index as int, i as int));
                }
            }
        }
        i = i + 1;
    }
    best
}

/// The candidate preferred over every other one, usable or not.
fn best_of_all(candidates: &[ConfigCandidate], requested_rate: u32) -> (b: Negotiated)
    requires
        candidates@.len() > 0,
    ensures
        is_best_any(candidates@, requested_rate, b),
{
    let ghost cs = candidates@;
    let n = candidates.len();
    let mut best = Negotiated { index: 0, capture_rate: 0 };
    let mut best_ch: u32 = 0;
    let mut best_dist: u32 = 0;
    let mut best_fmt: u32 = 0;
    let mut i: usize = 0;
    while i < n
        invariant
            n == cs.len(),
            cs == candidates@,
            n > 0,
            i <= n,
            i > 0 ==> {
                &&& best.index < i
                &&& best.capture_rate == clamp_rate(cs[best.index as int], requested_rate)
                &&& best_ch == channel_rank(cs[best.index as int].channels)
                &&& best_dist == rate_distance(cs[best.index as int], requested_rate)
                &&& best_fmt == format_rank(cs[best.index as int].format)
                &&& forall|j: int|
                    0 <= j < i && j != best.index ==> #[trigger] preferred(cs, requested_rate, best.index as int, j)
            },
        decreases n - i,
    {
        let c = candidates[i];
        let rate = if requested_rate < c.min_rate {
            c.min_rate
        } else if requested_rate > c.max_rate {
            c.max_rate
        } else {
            requested_rate
        };
        let dist = if rate >= requested_rate {
            rate - requested_rate
        } else {
            requested_rate - rate
        };
        let ch = channel_score(c.channels);
        let fmt = format_score(c.format);
        let better = i == 0 || ch < best_ch || (ch == best_ch && dist < best_dist) || (ch == best_ch
            && dist == best_dist && fmt < best_fmt);
        if better {
            proof {
                if i > 0 {
                    let b = best.index as int;
                    assert forall|j: int| 0 <= j < i + 1 && j != i implies #[trigger] preferred(
                        cs,
                        requested_rate,
                        i as int,
                        j,
                    ) by {
                        if j != b {
                            assert(preferred(cs, requested_rate, b, j));
                        }
                    }
                }
            }
            best = Negotiated { index: i, capture_rate: rate };
            best_ch = ch;
            best_dist = dist;
            best_fmt = fmt;
        } else {
            proof {
                assert(preferred(cs, requested_rate, best.index as int, i as int));
            }
        }
        i = i + 1;
    }
    best
}

} // verus!
