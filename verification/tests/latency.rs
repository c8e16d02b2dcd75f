use tcp_streamer::audio::engine::latency::{
    params, resolve, LatencyOverrides, LatencyParams, FIXED_LATENCY_MAX_MS, FIXED_LATENCY_MIN_MS,
};

#[test]
fn ultra_low_has_lowest_latency() {
    assert!(params("ultra-low", false).ring_ms < params("balanced", false).ring_ms);
    assert!(params("ultra-low", false).chunk_size <= params("balanced", false).chunk_size);
}

#[test]
fn robust_buffers_more_than_balanced() {
    assert!(params("robust", false).ring_ms > params("balanced", false).ring_ms);
    assert!(params("robust", false).adaptive_min_ms > params("balanced", false).adaptive_min_ms);
}

#[test]
fn unknown_profile_falls_back_to_balanced() {
    assert_eq!(params("nonsense", false), params("balanced", false));
}

#[test]
fn loopback_floors_are_higher_than_non_loopback() {
    for p in ["ultra-low", "balanced", "robust"] {
        assert!(
            params(p, true).ring_ms >= params(p, false).ring_ms,
            "loopback ring for {p} should be >= non-loopback"
        );
        assert!(params(p, true).adaptive_min_ms >= params(p, false).adaptive_min_ms);
    }
}

#[test]
fn prefill_is_small_for_instant_start() {
    for p in ["ultra-low", "balanced", "robust", "broadcast"] {
        for lb in [false, true] {
            let lp = params(p, lb);
            assert!(
                lp.prefill_ms <= 400,
                "prefill for {p} (loopback={lb}) must be <=400ms for fast startup, got {}",
                lp.prefill_ms
            );
            assert!(lp.prefill_ms < lp.ring_ms, "prefill must be far below ring capacity for {p}");
        }
    }
}

#[test]
fn target_ceiling_fits_inside_ring() {
    for p in ["ultra-low", "balanced", "robust", "broadcast"] {
        for lb in [false, true] {
            let lp = params(p, lb);
            assert!(
                lp.adaptive_max_ms <= lp.ring_ms,
                "adaptive target ceiling must fit in ring capacity for {p} (loopback={lb}): {} > {}",
                lp.adaptive_max_ms,
                lp.ring_ms
            );
        }
    }
}

#[test]
fn target_floor_keeps_latency_low() {
    for p in ["ultra-low", "balanced", "robust"] {
        let lp = params(p, false);
        assert!(
            lp.adaptive_min_ms <= 1000,
            "standing-latency floor for {p} must be <=1000ms, got {}",
            lp.adaptive_min_ms
        );
    }
}

#[test]
fn broadcast_band_is_collapsed() {
    for lb in [false, true] {
        let lp = params("broadcast", lb);
        assert_eq!(
            lp.adaptive_min_ms, lp.adaptive_max_ms,
            "broadcast must have a collapsed adaptive band (loopback={lb})"
        );
    }
    assert_eq!(params("broadcast", false).adaptive_min_ms, 250);
    assert_eq!(params("broadcast", true).adaptive_min_ms, 400);
}

#[test]
fn resolve_matches_params_for_named_profiles() {
    for p in ["ultra-low", "balanced", "robust", "nonsense"] {
        for lb in [false, true] {
            assert_eq!(
                resolve(p, lb, LatencyOverrides::default()),
                params(p, lb),
                "resolve must equal params for {p} (loopback={lb})"
            );
        }
    }
}

#[test]
fn resolve_custom_matches_previous_engine_behavior() {
    let got = resolve(
        "custom",
        false,
        LatencyOverrides {
            ring_ms: Some(6000),
            min_buffer_ms: Some(300),
            max_buffer_ms: Some(2500),
            chunk_size: Some(1024),
            fixed_latency_ms: None,
        },
    );
    assert_eq!(
        got,
        LatencyParams {
            ring_ms: 6000,
            adaptive_min_ms: 300,
            adaptive_max_ms: 2500,
            chunk_size: 1024,
            prefill_ms: 200,
        }
    );
}

#[test]
fn resolve_custom_prefill_follows_small_ring() {
    let got = resolve(
        "custom",
        false,
        LatencyOverrides {
            ring_ms: Some(150),
            ..LatencyOverrides::default()
        },
    );
    assert_eq!(got.prefill_ms, 150, "prefill is ring_ms.min(200)");
}

#[test]
fn broadcast_override_sets_fixed_target() {
    let got = resolve(
        "broadcast",
        false,
        LatencyOverrides {
            fixed_latency_ms: Some(500),
            ..LatencyOverrides::default()
        },
    );
    assert_eq!(got.adaptive_min_ms, 500);
    assert_eq!(got.adaptive_max_ms, 500);
    assert_eq!(got.prefill_ms, 400, "prefill is fixed.min(400)");
}

#[test]
fn broadcast_override_is_clamped() {
    let low = resolve(
        "broadcast",
        false,
        LatencyOverrides {
            fixed_latency_ms: Some(1),
            ..LatencyOverrides::default()
        },
    );
    assert_eq!(low.adaptive_min_ms, FIXED_LATENCY_MIN_MS);
    let high = resolve(
        "broadcast",
        false,
        LatencyOverrides {
            fixed_latency_ms: Some(99_000),
            ..LatencyOverrides::default()
        },
    );
    assert_eq!(high.adaptive_min_ms, FIXED_LATENCY_MAX_MS);
}

#[test]
fn broadcast_override_never_shrinks_profile_ring() {
    let got = resolve(
        "broadcast",
        true,
        LatencyOverrides {
            fixed_latency_ms: Some(100),
            ..LatencyOverrides::default()
        },
    );
    assert_eq!(got.ring_ms, params("broadcast", true).ring_ms);
    assert!(got.ring_ms >= got.adaptive_max_ms);
}

#[test]
fn broadcast_large_override_grows_ring_for_headroom() {
    let got = resolve(
        "broadcast",
        false,
        LatencyOverrides {
            fixed_latency_ms: Some(2000),
            ..LatencyOverrides::default()
        },
    );
    assert_eq!(got.ring_ms, 8000, "ring is max(profile ring, fixed * 4)");
    assert!(got.ring_ms >= got.adaptive_max_ms);
}

#[test]
fn broadcast_without_override_uses_profile_defaults() {
    assert_eq!(
        resolve("broadcast", false, LatencyOverrides::default()),
        params("broadcast", false)
    );
}

#[test]
fn named_profile_values_are_exact() {
    assert_eq!(
        params("balanced", false),
        LatencyParams { ring_ms: 4000, adaptive_min_ms: 200, adaptive_max_ms: 1500, chunk_size: 512, prefill_ms: 200 }
    );
    assert_eq!(
        params("broadcast", true),
        LatencyParams { ring_ms: 4000, adaptive_min_ms: 400, adaptive_max_ms: 400, chunk_size: 512, prefill_ms: 400 }
    );
}
