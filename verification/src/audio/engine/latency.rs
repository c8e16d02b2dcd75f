//! Latency profile -> buffer parameters.
//!
//! Model: `ring_ms` is the ring CAPACITY: how much audio we can hold without
//! dropping capture data during a network stall. The adaptive band
//! (`adaptive_min_ms`..`adaptive_max_ms`) is the STANDING-LATENCY target: the
//! engine drops backlog above the current target to keep end-to-end latency
//! bounded, and the adaptive controller moves the target inside this band
//! based on observed glitches. `prefill_ms` is a small startup cushion before
//! the first byte is sent. Loopback capture gets higher floors because it
//! needs more buffering.

use crate::text::same_text;
use vstd::prelude::*;

verus! {

/// Buffer parameters of a latency profile, in milliseconds (chunk in frames).
#[derive(Debug, Clone, Copy, PartialEq, Eq, Structural)]
pub struct LatencyParams {
    pub ring_ms: u32,
    pub adaptive_min_ms: u32,
    pub adaptive_max_ms: u32,
    pub chunk_size: u32,
    pub prefill_ms: u32,
}

/// Lower bound of the broadcast profile's fixed-latency override.
pub const FIXED_LATENCY_MIN_MS: u32 = 50;

/// Upper bound of the broadcast profile's fixed-latency override.
pub const FIXED_LATENCY_MAX_MS: u32 = 2000;

/// Manual latency inputs supplied by the user. `None` means "use the named
/// profile's built-in value".
#[derive(Debug, Clone, Copy, PartialEq, Eq, Structural)]
pub struct LatencyOverrides {
    pub ring_ms: Option<u32>,
    pub min_buffer_ms: Option<u32>,
    pub max_buffer_ms: Option<u32>,
    pub chunk_size: Option<u32>,
    pub fixed_latency_ms: Option<u32>,
}

impl Default for LatencyOverrides {
    /// No override at all.
    fn default() -> (o: Self)
        ensures
            o == no_overrides(),
    {
        LatencyOverrides {
            ring_ms: None,
            min_buffer_ms: None,
            max_buffer_ms: None,
            chunk_size: None,
            fixed_latency_ms: None,
        }
    }
}

/// The overrides that override nothing.
pub open spec fn no_overrides() -> LatencyOverrides {
    LatencyOverrides {
        ring_ms: None,
        min_buffer_ms: None,
        max_buffer_ms: None,
        chunk_size: None,
        fixed_latency_ms: None,
    }
}

/// Builds a parameter set.
pub open spec fn lp(ring: u32, amin: u32, amax: u32, chunk: u32, prefill: u32) -> LatencyParams {
    LatencyParams {
        ring_ms: ring,
        adaptive_min_ms: amin,
        adaptive_max_ms: amax,
        chunk_size: chunk,
        prefill_ms: prefill,
    }
}

/// The built-in parameters of a named profile; "balanced" and any unknown
/// name share the balanced values.
pub open spec fn profile_params(profile: Seq<char>, is_loopback: bool) -> LatencyParams {
    if profile == "ultra-low"@ {
        if is_loopback {
            lp(3000, 150, 800, 256, 150)
        } else {
            lp(2000, 100, 500, 256, 100)
        }
    } else if profile == "robust"@ {
        if is_loopback {
            lp(10000, 800, 4000, 1024, 400)
        } else {
            lp(8000, 500, 3000, 1024, 300)
        }
    } else if profile == "broadcast"@ {
        if is_loopback {
            lp(4000, 400, 400, 512, 400)
        } else {
            lp(3000, 250, 250, 512, 250)
        }
    } else {
        if is_loopback {
            lp(6000, 300, 2000, 512, 250)
        } else {
            lp(4000, 200, 1500, 512, 200)
        }
    }
}

/// `x` clamped into `[lo, hi]` (with `lo <= hi`).
pub open spec fn clamp_u32(x: u32, lo: u32, hi: u32) -> u32 {
    if x < lo {
        lo
    } else if x > hi {
        hi
    } else {
        x
    }
}

/// The smaller of two values.
pub open spec fn min_u32(a: u32, b: u32) -> u32 {
    if a <= b {
        a
    } else {
        b
    }
}

/// The larger of two values.
pub open spec fn max_u32(a: u32, b: u32) -> u32 {
    if a >= b {
        a
    } else {
        b
    }
}

/// `4 * x`, saturating at `u32::MAX`.
pub open spec fn times4_saturating(x: u32) -> u32 {
    if 4 * x <= u32::MAX {
        (4 * x) as u32
    } else {
        u32::MAX
    }
}

/// What `resolve` returns: `custom` reads the manual buffer fields (with the
/// frontend's defaults), `broadcast` reads the fixed-latency override, every
/// other profile is its built-in parameter set.
pub open spec fn resolved_params(profile: Seq<char>, is_loopback: bool, o: LatencyOverrides) -> LatencyParams {
    if profile == "custom"@ {
        let ring = match o.ring_ms {
            Some(r) => r,
            None => 4000,
        };
        lp(
            ring,
            match o.min_buffer_ms {
                Some(v) => v,
                None => 2000,
            },
            match o.max_buffer_ms {
                Some(v) => v,
                None => 10000,
            },
            match o.chunk_size {
                Some(v) => v,
                None => 512,
            },
            min_u32(ring, 200),
        )
    } else if profile == "broadcast"@ {
        let base = profile_params(profile, is_loopback);
        match o.fixed_latency_ms {
            Some(f) => {
                let fixed = clamp_u32(f, FIXED_LATENCY_MIN_MS, FIXED_LATENCY_MAX_MS);
                lp(
                    max_u32(base.ring_ms, times4_saturating(fixed)),
                    fixed,
                    fixed,
                    base.chunk_size,
                    min_u32(fixed, 400),
                )
            },
            None => base,
        }
    } else {
        profile_params(profile, is_loopback)
    }
}

fn make(ring_ms: u32, adaptive_min_ms: u32, adaptive_max_ms: u32, chunk_size: u32, prefill_ms: u32) -> (p: LatencyParams)
    ensures
        p == lp(ring_ms, adaptive_min_ms, adaptive_max_ms, chunk_size, prefill_ms),
{
    LatencyParams { ring_ms, adaptive_min_ms, adaptive_max_ms, chunk_size, prefill_ms }
}

/// Returns buffer parameters for a named profile. Unknown profiles fall back to
/// "balanced". "custom" is handled by [`resolve`], which reads the user's
/// manual fields instead.
pub fn params(profile: &str, is_loopback: bool) -> (p: LatencyParams)
    ensures
        p == profile_params(profile@, is_loopback),
{
    if same_text(profile, "ultra-low") {
        if is_loopback {
            make(3000, 150, 800, 256, 150)
        } else {
            make(2000, 100, 500, 256, 100)
        }
    } else if same_text(profile, "robust") {
        if is_loopback {
            make(10000, 800, 4000, 1024, 400)
        } else {
            make(8000, 500, 3000, 1024, 300)
        }
    } else if same_text(profile, "broadcast") {
        if is_loopback {
            make(4000, 400, 400, 512, 400)
        } else {
            make(3000, 250, 250, 512, 250)
        }
    } else {
        if is_loopback {
            make(6000, 300, 2000, 512, 250)
        } else {
            make(4000, 200, 1500, 512, 200)
        }
    }
}

/// Resolves a profile name plus user overrides into concrete buffer
/// parameters. Overrides apply only to the profiles that define them:
/// `custom` reads the manual buffer fields, `broadcast` reads
/// `fixed_latency_ms` (clamped into [`FIXED_LATENCY_MIN_MS`],
/// [`FIXED_LATENCY_MAX_MS`]), and every other profile ignores all of them.
pub fn resolve(profile: &str, is_loopback: bool, overrides: LatencyOverrides) -> (p: LatencyParams)
    ensures
        p == resolved_params(profile@, is_loopback, overrides),
{
    if same_text(profile, "custom") {
        let ring_ms = match overrides.ring_ms {
            Some(r) => r,
            None => 4000,
        };
        make(
            ring_ms,
            match overrides.min_buffer_ms {
                Some(v) => v,
                None => 2000,
            },
            match overrides.max_buffer_ms {
                Some(v) => v,
                None => 10000,
            },
            match overrides.chunk_size {
                Some(v) => v,
                None => 512,
            },
            if ring_ms <= 200 {
                ring_ms
            } else {
                200
            },
        )
    } else if same_text(profile, "broadcast") {
        let base = params(profile, is_loopback);
        match overrides.fixed_latency_ms {
            Some(f) => {
                let fixed = if f < FIXED_LATENCY_MIN_MS {
                    FIXED_LATENCY_MIN_MS
                } else if f > FIXED_LATENCY_MAX_MS {
                    FIXED_LATENCY_MAX_MS
                } else {
                    f
                };
                let grown: u32 = if fixed <= u32::MAX / 4 {
                    fixed * 4
                } else {
                    u32::MAX
                };
                make(
                    if base.ring_ms >= grown {
                        base.ring_ms
                    } else {
                        grown
                    },
                    fixed,
                    fixed,
                    base.chunk_size,
                    if fixed <= 400 {
                        fixed
                    } else {
                        400
                    },
                )
            },
            None => base,
        }
    } else {
        params(profile, is_loopback)
    }
}

/// Every profile keeps its startup cushion small (at most 400 ms) and far
/// below the ring capacity, and its standing-latency ceiling fits inside the
/// ring. Without loopback the standing-latency floor is at most 1000 ms.
pub proof fn lemma_profiles_fit_their_ring(profile: Seq<char>, is_loopback: bool)
    ensures
        profile_params(profile, is_loopback).prefill_ms <= 400,
        profile_params(profile, is_loopback).prefill_ms < profile_params(profile, is_loopback).ring_ms,
        profile_params(profile, is_loopback).adaptive_max_ms <= profile_params(profile, is_loopback).ring_ms,
        profile_params(profile, is_loopback).adaptive_min_ms <= profile_params(profile, is_loopback).adaptive_max_ms,
        !is_loopback ==> profile_params(profile, is_loopback).adaptive_min_ms <= 1000,
{
}

/// Loopback capture gets higher floors: under every profile its ring is
/// strictly larger and its latency floor and ceiling strictly higher than for
/// ordinary capture, and its startup cushion is never smaller.
pub proof fn lemma_loopback_floors_are_higher(profile: Seq<char>)
    ensures
        profile_params(profile, true).ring_ms > profile_params(profile, false).ring_ms,
        profile_params(profile, true).adaptive_min_ms > profile_params(profile, false).adaptive_min_ms,
        profile_params(profile, true).adaptive_max_ms > profile_params(profile, false).adaptive_max_ms,
        profile_params(profile, true).prefill_ms >= profile_params(profile, false).prefill_ms,
        profile_params(profile, true).chunk_size == profile_params(profile, false).chunk_size,
{
}

/// "balanced", and every name that is not one of the other built-in
/// profiles, gets the balanced parameters: ring 4000 ms, band 200-1500 ms,
/// chunk 512, prefill 200 ms; with loopback capture ring 6000 ms, band
/// 300-2000 ms, chunk 512, prefill 250 ms.
pub proof fn lemma_balanced_is_the_default(profile: Seq<char>)
    requires
        profile != "ultra-low"@,
        profile != "robust"@,
        profile != "broadcast"@,
    ensures
        profile_params(profile, false) == (LatencyParams {
            ring_ms: 4000,
            adaptive_min_ms: 200,
            adaptive_max_ms: 1500,
            chunk_size: 512,
            prefill_ms: 200,
        }),
        profile_params(profile, true) == (LatencyParams {
            ring_ms: 6000,
            adaptive_min_ms: 300,
            adaptive_max_ms: 2000,
            chunk_size: 512,
            prefill_ms: 250,
        }),
{
}

/// The built-in table of the other named profiles, as (ring, band floor,
/// band ceiling, chunk, prefill): ultra-low (2000, 100, 500, 256, 100), with
/// loopback (3000, 150, 800, 256, 150); robust (8000, 500, 3000, 1024, 300),
/// with loopback (10000, 800, 4000, 1024, 400); broadcast (3000, 250, 250,
/// 512, 250), with loopback (4000, 400, 400, 512, 400).
pub proof fn lemma_named_profile_table()
    ensures
        profile_params("ultra-low"@, false) == (LatencyParams {
            ring_ms: 2000,
            adaptive_min_ms: 100,
            adaptive_max_ms: 500,
            chunk_size: 256,
            prefill_ms: 100,
        }),
        profile_params("ultra-low"@, true) == (LatencyParams {
            ring_ms: 3000,
            adaptive_min_ms: 150,
            adaptive_max_ms: 800,
            chunk_size: 256,
            prefill_ms: 150,
        }),
        profile_params("robust"@, false) == (LatencyParams {
            ring_ms: 8000,
            adaptive_min_ms: 500,
            adaptive_max_ms: 3000,
            chunk_size: 1024,
            prefill_ms: 300,
        }),
        profile_params("robust"@, true) == (LatencyParams {
            ring_ms: 10000,
            adaptive_min_ms: 800,
            adaptive_max_ms: 4000,
            chunk_size: 1024,
            prefill_ms: 400,
        }),
        profile_params("broadcast"@, false) == (LatencyParams {
            ring_ms: 3000,
            adaptive_min_ms: 250,
            adaptive_max_ms: 250,
            chunk_size: 512,
            prefill_ms: 250,
        }),
        profile_params("broadcast"@, true) == (LatencyParams {
            ring_ms: 4000,
            adaptive_min_ms: 400,
            adaptive_max_ms: 400,
            chunk_size: 512,
            prefill_ms: 400,
        }),
{
    reveal_strlit("ultra-low");
    reveal_strlit("robust");
    reveal_strlit("broadcast");
    assert("ultra-low"@.len() == 9);
    assert("robust"@.len() == 6);
    assert("broadcast"@.len() == 9);
    assert("robust"@ != "ultra-low"@);
    assert("broadcast"@ != "ultra-low"@) by {
        assert("broadcast"@[0] != "ultra-low"@[0]);
    }
    assert("broadcast"@ != "robust"@);
}

/// Without overrides, resolving any profile other than "custom" gives its
/// built-in parameters.
pub proof fn lemma_resolve_without_overrides(profile: Seq<char>, is_loopback: bool)
    requires
        profile != "custom"@,
    ensures
        resolved_params(profile, is_loopback, no_overrides()) == profile_params(profile, is_loopback),
{
}

/// A broadcast fixed-latency override collapses the band onto the clamped
/// value, never shrinks the profile's ring, and keeps the band inside it.
pub proof fn lemma_broadcast_override(is_loopback: bool, o: LatencyOverrides)
    requires
        o.fixed_latency_ms is Some,
    ensures
        ({
            let p = resolved_params("broadcast"@, is_loopback, o);
            let fixed = clamp_u32(o.fixed_latency_ms->0, FIXED_LATENCY_MIN_MS, FIXED_LATENCY_MAX_MS);
            &&& p.adaptive_min_ms == fixed
            &&& p.adaptive_max_ms == fixed
            &&& FIXED_LATENCY_MIN_MS <= fixed <= FIXED_LATENCY_MAX_MS
            &&& p.ring_ms >= profile_params("broadcast"@, is_loopback).ring_ms
            &&& p.ring_ms >= p.adaptive_max_ms
            &&& p.prefill_ms <= 400
        }),
{
    reveal_strlit("broadcast");
    reveal_strlit("custom");
    assert("broadcast"@.len() == 9);
    assert("custom"@.len() == 6);
    assert("broadcast"@ != "custom"@);
}

} // verus!
