//! Adaptive latency-target controller (target-occupancy model).
//!
//! The ring buffer is allocated once at the maximum size; this controller only
//! decides how many milliseconds of audio we aim to keep buffered ("target"),
//! growing it when glitches occur (more jitter tolerance, more latency) and
//! shrinking it toward the minimum when the stream has been stable (less
//! latency). It performs no I/O.

use vstd::prelude::*;

verus! {

/// Abstract state of the controller.
pub struct AdaptiveModel {
    pub min_ms: u32,
    pub max_ms: u32,
    pub step_ms: u32,
    pub target_ms: u32,
    pub stable_ticks: u32,
    pub stable_threshold: u32,
}

impl AdaptiveModel {
    /// The target stays inside the band; step and threshold are positive and
    /// the stability counter is below the threshold.
    pub open spec fn wf(self) -> bool {
        &&& self.min_ms <= self.target_ms <= self.max_ms
        &&& self.step_ms >= 1
        &&& self.stable_threshold >= 1
        &&& self.stable_ticks < self.stable_threshold
    }

    /// The state after one control tick.
    pub open spec fn ticked(self, had_glitch: bool) -> AdaptiveModel {
        if had_glitch {
            AdaptiveModel {
                stable_ticks: 0,
                target_ms: if self.target_ms + self.step_ms <= self.max_ms {
                    (self.target_ms + self.step_ms) as u32
                } else {
                    self.max_ms
                },
                ..self
            }
        } else if self.stable_ticks + 1 >= self.stable_threshold {
            AdaptiveModel {
                stable_ticks: 0,
                target_ms: if self.target_ms >= self.min_ms + self.step_ms {
                    (self.target_ms - self.step_ms) as u32
                } else {
                    self.min_ms
                },
                ..self
            }
        } else {
            AdaptiveModel { stable_ticks: (self.stable_ticks + 1) as u32, ..self }
        }
    }
}

/// Adaptive controller for the buffered-latency target, in milliseconds.
#[derive(Debug, Clone, Copy)]
pub struct AdaptiveBuffer {
    min_ms: u32,
    max_ms: u32,
    step_ms: u32,
    target_ms: u32,
    stable_ticks: u32,
    stable_threshold: u32,
}

impl View for AdaptiveBuffer {
    type V = AdaptiveModel;

    closed spec fn view(&self) -> AdaptiveModel {
        AdaptiveModel {
            min_ms: self.min_ms,
            max_ms: self.max_ms,
            step_ms: self.step_ms,
            target_ms: self.target_ms,
            stable_ticks: self.stable_ticks,
            stable_threshold: self.stable_threshold,
        }
    }
}

impl AdaptiveBuffer {
    /// The controller's state is always well formed.
    #[verifier::type_invariant]
    spec fn inv(self) -> bool {
        self@.wf()
    }

    /// `stable_threshold` = consecutive glitch-free ticks required before the
    /// target is lowered one step (at least 1). `max_ms` is raised to `min_ms`
    /// if below it, `step_ms` to 1, and `initial_ms` is clamped into the band.
    pub fn new(min_ms: u32, max_ms: u32, step_ms: u32, initial_ms: u32, stable_threshold: u32) -> (a: Self)
        ensures
            a@.wf(),
            a@.min_ms == min_ms,
            a@.max_ms == if max_ms >= min_ms {
                max_ms
            } else {
                min_ms
            },
            a@.step_ms == if step_ms >= 1 {
                step_ms
            } else {
                1
            },
            a@.target_ms == if initial_ms < min_ms {
                min_ms
            } else if initial_ms > a@.max_ms {
                a@.max_ms
            } else {
                initial_ms
            },
            a@.stable_ticks == 0,
            a@.stable_threshold == if stable_threshold >= 1 {
                stable_threshold
            } else {
                1
            },
    {
        let max_ms = if max_ms >= min_ms {
            max_ms
        } else {
            min_ms
        };
        let target_ms = if initial_ms < min_ms {
            min_ms
        } else if initial_ms > max_ms {
            max_ms
        } else {
            initial_ms
        };
        AdaptiveBuffer {
            min_ms,
            max_ms,
            step_ms: if step_ms >= 1 {
                step_ms
            } else {
                1
            },
            target_ms,
            stable_ticks: 0,
            stable_threshold: if stable_threshold >= 1 {
                stable_threshold
            } else {
                1
            },
        }
    }

    /// The current latency target in milliseconds.
    pub fn target_ms(&self) -> (t: u32)
        ensures
            t == self@.target_ms,
    {
        self.target_ms
    }

    /// Advances one control tick. `had_glitch` = an underrun or overrun was
    /// observed since the previous tick. A glitch raises the target one step
    /// (capped at the maximum) and restarts the stability count; the
    /// `stable_threshold`-th consecutive clean tick lowers it one step
    /// (floored at the minimum). Returns `Some(new_target)` only when the
    /// target actually changed.
    pub fn on_tick(&mut self, had_glitch: bool) -> (r: Option<u32>)
        requires
            had_glitch ==> old(self)@.target_ms + old(self)@.step_ms <= u32::MAX,
        ensures
            final(self)@.wf(),
            final(self)@ == old(self)@.ticked(had_glitch),
            r == if final(self)@.target_ms != old(self)@.target_ms {
                Some(final(self)@.target_ms)
            } else {
                None::<u32>
            },
    {
        proof {
            use_type_invariant(&*self);
        }
        let prev = self.target_ms;
        let (target, ticks) = if had_glitch {
            let raised = self.target_ms + self.step_ms;
            (
                if raised <= self.max_ms {
                    raised
                } else {
                    self.max_ms
                },
                0,
            )
        } else if self.stable_ticks + 1 >= self.stable_threshold {
            let lowered = if self.target_ms >= self.step_ms {
                self.target_ms - self.step_ms
            } else {
                0
            };
            (
                if lowered >= self.min_ms {
                    lowered
                } else {
                    self.min_ms
                },
                0,
            )
        } else {
            (self.target_ms, self.stable_ticks + 1)
        };
        *self = AdaptiveBuffer { target_ms: target, stable_ticks: ticks, ..*self };
        if target != prev {
            Some(target)
        } else {
            None
        }
    }

    /// The step by which a tick moves the target.
    pub fn step_ms(&self) -> (s: u32)
        ensures
            s == self@.step_ms,
    {
        self.step_ms
    }
}

/// Counts glitches per quality-report interval from a running total.
#[derive(Debug, Clone, Copy)]
pub struct GlitchWindow {
    baseline: u64,
}

impl View for GlitchWindow {
    type V = u64;

    /// The running total at the end of the previous interval.
    closed spec fn view(&self) -> u64 {
        self.baseline
    }
}

impl GlitchWindow {
    /// A window whose first interval counts from zero.
    pub fn new() -> (w: Self)
        ensures
            w@ == 0,
    {
        GlitchWindow { baseline: 0 }
    }

    /// Closes the interval at running total `total`: returns the glitches
    /// since the previous close (0 if the total went backwards) and starts
    /// the next interval at `total`.
    pub fn close(&mut self, total: u64) -> (delta: u64)
        ensures
            delta == if total >= old(self)@ {
                (total - old(self)@) as u64
            } else {
                0
            },
            final(self)@ == total,
    {
        let delta = total.saturating_sub(self.baseline);
        self.baseline = total;
        delta
    }
}

/// One quality-report tick of the latency controller: with adaptation off
/// nothing changes; with it on, the tick counts as glitchy when any glitch
/// arrived in the interval. Returns the new target when it changed.
pub fn adaptive_step(buf: &mut AdaptiveBuffer, enabled: bool, glitches: u64) -> (r: Option<u32>)
    requires
        enabled && glitches > 0 ==> old(buf)@.target_ms + old(buf)@.step_ms <= u32::MAX,
    ensures
        !enabled ==> r is None && final(buf)@ == old(buf)@,
        enabled ==> final(buf)@ == old(buf)@.ticked(glitches > 0),
        enabled ==> r == if final(buf)@.target_ms != old(buf)@.target_ms {
            Some(final(buf)@.target_ms)
        } else {
            None::<u32>
        },
{
    if enabled {
        buf.on_tick(glitches > 0)
    } else {
        None
    }
}

/// The target never leaves the band, a glitch never lowers it and a clean
/// tick never raises it.
pub proof fn lemma_adaptive_target_monotone(a: AdaptiveModel, had_glitch: bool)
    requires
        a.wf(),
    ensures
        a.ticked(had_glitch).wf(),
        had_glitch ==> a.ticked(had_glitch).target_ms >= a.target_ms,
        !had_glitch ==> a.ticked(had_glitch).target_ms <= a.target_ms,
        a.ticked(had_glitch).min_ms == a.min_ms && a.ticked(had_glitch).max_ms == a.max_ms,
{
}

} // verus!
