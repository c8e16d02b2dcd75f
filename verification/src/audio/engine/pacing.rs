//! Pacing helpers for the engine send loop: standing-latency enforcement
//! (how much backlog to drop) and honest underrun detection (sustained
//! starvation, not instantaneous emptiness).

use vstd::prelude::*;

verus! {

/// Samples per millisecond-scaled duration: `rate * channels * ms / 1000`.
pub open spec fn samples_for_ms(sample_rate: u32, channels: u16, ms: int) -> int {
    (sample_rate * channels * ms) / 1000
}

/// What `excess_samples` returns: nothing while `occupied` is within
/// `target_ms + margin_ms`; above that, the samples in excess of `target_ms`
/// rounded down to a whole frame.
pub open spec fn excess_spec(occupied: int, target_ms: int, margin_ms: int, sample_rate: u32, channels: u16) -> int {
    let target = samples_for_ms(sample_rate, channels, target_ms);
    let threshold = samples_for_ms(sample_rate, channels, target_ms + margin_ms);
    let ch = if channels >= 1 {
        channels as int
    } else {
        1
    };
    if occupied > threshold {
        (occupied - target) - (occupied - target) % ch
    } else {
        0
    }
}

/// The smaller of `want` and `cap`, rounded down to a multiple of `m`.
pub open spec fn round_down_pick(want: int, cap: int, m: int) -> int {
    let x = if want <= cap {
        want
    } else {
        cap
    };
    x - x % m
}

/// Rounding a count down to a multiple of `m` keeps it non-negative, no
/// larger, and divisible by `m`.
pub proof fn lemma_round_down_to_multiple(x: int, m: int)
    requires
        x >= 0,
        m >= 1,
    ensures
        0 <= x % m <= x,
        (x - x % m) % m == 0,
        x - x % m >= 0,
{
    vstd::arithmetic::div_mod::lemma_fundamental_div_mod(x, m);
    vstd::arithmetic::div_mod::lemma_mod_bound(x, m);
    assert(x - x % m == m * (x / m));
    vstd::arithmetic::div_mod::lemma_mod_multiples_basic(x / m, m);
    vstd::arithmetic::div_mod::lemma_div_pos_is_pos(x, m);
    assert(x / m >= 0);
    assert(m * (x / m) >= 0) by (nonlinear_arith)
        requires
            m >= 1,
            x / m >= 0,
    ;
    assert((x / m) * m == m * (x / m)) by (nonlinear_arith);
}

/// Samples to drop so ring occupancy returns to the standing-latency target.
///
/// Returns 0 while `occupied` is within `target_ms + margin_ms`; above that
/// threshold it returns the samples in excess of `target_ms` (we drain back
/// to the target, not to the threshold), rounded DOWN to a whole frame so
/// skipping never breaks channel interleaving.
pub fn excess_samples(occupied: usize, target_ms: u32, margin_ms: u32, sample_rate: u32, channels: u16) -> (r: usize)
    requires
        target_ms + margin_ms <= u32::MAX,
        sample_rate * channels * (target_ms + margin_ms) <= usize::MAX,
    ensures
        r == excess_spec(occupied as int, target_ms as int, margin_ms as int, sample_rate, channels),
        (r as int) % (if channels >= 1 { channels as int } else { 1int }) == 0,
        r <= occupied,
{
    proof {
        assert(sample_rate * channels * target_ms <= sample_rate * channels * (target_ms + margin_ms))
            by (nonlinear_arith)
            requires
                margin_ms >= 0,
        ;
        assert(sample_rate * channels <= sample_rate * channels * (target_ms + margin_ms) || target_ms
            + margin_ms == 0) by (nonlinear_arith);
        assert(samples_for_ms(sample_rate, channels, target_ms as int) <= samples_for_ms(
            sample_rate,
            channels,
            target_ms + margin_ms,
        )) by (nonlinear_arith)
            requires
                sample_rate * channels * target_ms <= sample_rate * channels * (target_ms + margin_ms),
        ;
    }
    let per_sec: usize = if target_ms + margin_ms == 0 {
        0
    } else {
        sample_rate as usize * channels as usize
    };
    proof {
        if target_ms + margin_ms != 0 {
            assert(per_sec == sample_rate * channels);
        }
    }
    let target = per_sec * target_ms as usize / 1000;
    let threshold = per_sec * (target_ms + margin_ms) as usize / 1000;
    proof {
        if target_ms + margin_ms == 0 {
            assert(samples_for_ms(sample_rate, channels, 0) == 0);
        }
    }
    if occupied > threshold {
        let raw = occupied - target;
        let ch: usize = if channels >= 1 {
            channels as usize
        } else {
            1
        };
        proof {
            lemma_round_down_to_multiple(raw as int, ch as int);
        }
        raw - (raw % ch)
    } else {
        0
    }
}

/// What the UDP source does with its ring on one pass of the send loop.
#[derive(Debug, Clone, Copy, PartialEq, Eq, Structural)]
pub enum BacklogAction {
    /// Nobody is subscribed: drop these samples (everything buffered) so a
    /// new subscriber starts live instead of receiving stale audio.
    DiscardAll(usize),
    /// A subscriber is listening: drop these samples (the excess over the
    /// latency target, possibly none), then send what remains.
    SkipThenSend(usize),
}

/// The UDP source's backlog decision: with no subscriber everything buffered
/// goes; with one, the backlog is held near `target_ms` as `excess_samples`
/// computes it before sending.
pub fn udp_backlog(
    has_peer: bool,
    buffered: usize,
    target_ms: u32,
    margin_ms: u32,
    sample_rate: u32,
    channels: u16,
) -> (a: BacklogAction)
    requires
        has_peer ==> target_ms + margin_ms <= u32::MAX,
        has_peer ==> sample_rate * channels * (target_ms + margin_ms) <= usize::MAX,
    ensures
        !has_peer ==> a == BacklogAction::DiscardAll(buffered),
        has_peer ==> (a matches BacklogAction::SkipThenSend(n) && n == excess_spec(
            buffered as int,
            target_ms as int,
            margin_ms as int,
            sample_rate,
            channels,
        )),
{
    if has_peer {
        BacklogAction::SkipThenSend(excess_samples(buffered, target_ms, margin_ms, sample_rate, channels))
    } else {
        BacklogAction::DiscardAll(buffered)
    }
}

/// Abstract state of the starvation detector.
pub struct GateModel {
    pub threshold_ms: u64,
    pub empty_since_ms: Option<u64>,
    pub fired: bool,
}

/// The detector's state and answer after an update at `now_ms`.
pub open spec fn gate_step(m: GateModel, is_starved: bool, now_ms: u64) -> (GateModel, bool) {
    if !is_starved {
        (GateModel { empty_since_ms: None, fired: false, ..m }, false)
    } else {
        let since = match m.empty_since_ms {
            Some(t) => t,
            None => now_ms,
        };
        let due = if now_ms >= since {
            now_ms - since >= m.threshold_ms
        } else {
            0 >= m.threshold_ms
        };
        (GateModel { empty_since_ms: Some(since), fired: m.fired || due, ..m }, !m.fired && due)
    }
}

/// How many times the detector fires over a run of starved updates at `times`.
pub open spec fn starved_fires(m: GateModel, times: Seq<u64>) -> nat
    decreases times.len(),
{
    if times.len() == 0 {
        0
    } else {
        let (n, fire) = gate_step(m, true, times[0]);
        (if fire {
            1nat
        } else {
            0nat
        }) + starved_fires(n, times.drop_first())
    }
}

/// One-shot detector for sustained buffer starvation.
///
/// The send loop runs far faster than capture fills the ring, so an empty ring
/// at any instant is normal. A real underrun is emptiness that PERSISTS while
/// we are connected. This gate fires once per episode, after `threshold_ms` of
/// continuous starvation, and re-arms only after the buffer recovers.
pub struct StarvationGate {
    threshold_ms: u64,
    empty_since_ms: Option<u64>,
    fired: bool,
}

impl View for StarvationGate {
    type V = GateModel;

    closed spec fn view(&self) -> GateModel {
        GateModel { threshold_ms: self.threshold_ms, empty_since_ms: self.empty_since_ms, fired: self.fired }
    }
}

impl StarvationGate {
    /// A detector that fires after `threshold_ms` of continuous starvation.
    pub fn new(threshold_ms: u64) -> (g: Self)
        ensures
            g@ == (GateModel { threshold_ms, empty_since_ms: None, fired: false }),
    {
        StarvationGate { threshold_ms, empty_since_ms: None, fired: false }
    }

    /// Advances the detector. `now_ms` is any monotonic millisecond clock.
    /// A call that is not starved ends the stretch of starvation and makes the
    /// detector ready to fire again. A stretch begins with its earliest starved
    /// call; the detector fires when the stretch has lasted `threshold_ms`
    /// (measured with saturating subtraction), then stays silent until the
    /// stretch ends.
    pub fn update(&mut self, is_starved: bool, now_ms: u64) -> (fire: bool)
        ensures
            (final(self)@, fire) == gate_step(old(self)@, is_starved, now_ms),
            final(self)@.threshold_ms == old(self)@.threshold_ms,
            !is_starved ==> !fire && final(self)@.empty_since_ms is None && !final(self)@.fired,
            is_starved ==> ({
                let since = match old(self)@.empty_since_ms {
                    Some(t) => t,
                    None => now_ms,
                };
                let due = if now_ms >= since {
                    now_ms - since >= old(self)@.threshold_ms
                } else {
                    0 >= old(self)@.threshold_ms
                };
                &&& final(self)@.empty_since_ms == Some(since)
                &&& fire == (!old(self)@.fired && due)
                &&& final(self)@.fired == (old(self)@.fired || due)
            }),
    {
        if !is_starved {
            self.empty_since_ms = None;
            self.fired = false;
            return false;
        }
        let since = match self.empty_since_ms {
            Some(t) => t,
            None => now_ms,
        };
        self.empty_since_ms = Some(since);
        let age = if now_ms >= since {
            now_ms - since
        } else {
            0
        };
        if !self.fired && age >= self.threshold_ms {
            self.fired = true;
            return true;
        }
        false
    }
}

/// The detector fires at most once per stretch of starvation, however
/// long it lasts, and not at all if it already fired in this stretch.
pub proof fn lemma_fires_once_per_stretch(m: GateModel, times: Seq<u64>)
    ensures
        starved_fires(m, times) <= (if m.fired {
            0nat
        } else {
            1nat
        }),
    decreases times.len(),
{
    if times.len() > 0 {
        let (n, fire) = gate_step(m, true, times[0]);
        lemma_fires_once_per_stretch(n, times.drop_first());
    }
}

/// The detector's state after starved updates at `times`, in order, from `m`.
pub open spec fn gate_run(m: GateModel, times: Seq<u64>) -> GateModel
    decreases times.len(),
{
    if times.len() == 0 {
        m
    } else {
        gate_step(gate_run(m, times.drop_last()), true, times.last()).0
    }
}

/// Whether the `k`-th of the starved updates at `times` from `m` fires.
pub open spec fn fires_at(m: GateModel, times: Seq<u64>, k: int) -> bool {
    gate_step(gate_run(m, times.take(k)), true, times[k]).1
}

/// `a - b`, or 0 when `b` is larger.
pub open spec fn saturating_sub(a: u64, b: u64) -> int {
    if a >= b {
        a - b
    } else {
        0
    }
}

/// The detector at rest: no stretch of starvation under way.
pub open spec fn gate_at_rest(m: GateModel) -> bool {
    m.empty_since_ms is None && !m.fired
}

proof fn lemma_gate_run_state(m: GateModel, times: Seq<u64>, k: int)
    requires
        gate_at_rest(m),
        0 < k <= times.len(),
    ensures
        gate_run(m, times.take(k)).threshold_ms == m.threshold_ms,
        gate_run(m, times.take(k)).empty_since_ms == Some(times[0]),
        gate_run(m, times.take(k)).fired == exists|i: int| 0 <= i < k && #[trigger] fires_at(m, times, i),
    decreases k,
{
    assert(times.take(k).drop_last() =~= times.take(k - 1));
    assert(times.take(k).last() == times[k - 1]);
    if k == 1 {
        assert(times.take(0) =~= Seq::<u64>::empty());
        assert(gate_run(m, times.take(0)) == m);
        if fires_at(m, times, 0) {
            assert(exists|i: int| 0 <= i < 1 && #[trigger] fires_at(m, times, i));
        }
    } else {
        lemma_gate_run_state(m, times, k - 1);
        if gate_run(m, times.take(k)).fired {
            if !gate_run(m, times.take(k - 1)).fired {
                assert(fires_at(m, times, k - 1));
            }
        }
        if exists|i: int| 0 <= i < k && #[trigger] fires_at(m, times, i) {
            let i = choose|i: int| 0 <= i < k && #[trigger] fires_at(m, times, i);
            if i < k - 1 {
                assert(gate_run(m, times.take(k - 1)).fired);
            }
        }
    }
}

/// Over a stretch of starvation that starts with the detector at rest (as
/// `new` leaves it, and as every update that is not starved leaves it, see
/// `update`), the `k`-th update fires exactly when no earlier update of the
/// stretch fired and at least `threshold_ms` have passed since the stretch's
/// first update (saturating); so it fires at most once per stretch.
pub proof fn lemma_starvation_episode(m: GateModel, times: Seq<u64>, k: int)
    requires
        gate_at_rest(m),
        0 <= k < times.len(),
    ensures
        fires_at(m, times, k) == ((forall|i: int| 0 <= i < k ==> !#[trigger] fires_at(m, times, i))
            && saturating_sub(times[k], times[0]) >= m.threshold_ms),
{
    if k == 0 {
        assert(times.take(0) =~= Seq::<u64>::empty());
        assert(gate_run(m, times.take(0)) == m);
    } else {
        lemma_gate_run_state(m, times, k);
    }
}

/// An update that is not starved never fires and ends any stretch: it puts
/// the detector at rest, keeping its threshold, so the next starved update
/// opens a new stretch.
pub proof fn lemma_calm_update_rests(m: GateModel, now_ms: u64)
    ensures
        !gate_step(m, false, now_ms).1,
        gate_at_rest(gate_step(m, false, now_ms).0),
        gate_step(m, false, now_ms).0.threshold_ms == m.threshold_ms,
{
}

} // verus!
