//! Events reported to the user interface, and the rate limit on log events.

use vstd::prelude::*;

verus! {

/// One log line shown in the user interface.
pub struct LogEvent {
    pub timestamp: String,
    pub level: String,
    pub message: String,
}

/// Reported when the buffering target changes.
pub struct BufferResizeEvent {
    pub new_size_ms: u32,
    pub reason: String,
}

/// Log events the user interface receives per window.
pub const LOG_EVENTS_PER_WINDOW: u64 = 5;

/// Length of a rate-limit window in milliseconds; a window ends once more
/// than this has passed since it began.
pub const LOG_WINDOW_MS: u64 = 1000;

/// The limiter's state: events counted in the current window and when it began.
pub struct LimiterState {
    pub count: u64,
    pub window_start_ms: u64,
}

/// `now - start` on the wall clock, wrapping as unsigned subtraction does
/// when the clock has stepped back.
pub open spec fn elapsed_ms(now: u64, start: u64) -> int {
    if now >= start {
        now - start
    } else {
        now - start + 0x1_0000_0000_0000_0000int
    }
}

/// The state once a call at `now` has opened a new window if the old one ended.
pub open spec fn windowed(s: LimiterState, now: u64) -> LimiterState {
    if elapsed_ms(now, s.window_start_ms) > LOG_WINDOW_MS {
        LimiterState { count: 0, window_start_ms: now }
    } else {
        s
    }
}

/// Whether a call at `now` may emit its event.
pub open spec fn admits(s: LimiterState, now: u64) -> bool {
    windowed(s, now).count < LOG_EVENTS_PER_WINDOW
}

/// The state after a call at `now` (the counter wraps like the atomic it stands for).
pub open spec fn limiter_step(s: LimiterState, now: u64) -> LimiterState {
    let w = windowed(s, now);
    LimiterState {
        count: if w.count == u64::MAX {
            0
        } else {
            (w.count + 1) as u64
        },
        window_start_ms: w.window_start_ms,
    }
}

/// The events admitted from a sequence of calls made at `times`.
pub open spec fn admitted_count(s: LimiterState, times: Seq<u64>) -> nat
    decreases times.len(),
{
    if times.len() == 0 {
        0
    } else {
        (if admits(s, times[0]) {
            1nat
        } else {
            0nat
        }) + admitted_count(limiter_step(s, times[0]), times.drop_first())
    }
}

/// Limits log events to five per second of wall-clock time.
pub struct LogRateLimiter {
    count: u64,
    window_start_ms: u64,
}

impl LogRateLimiter {
    /// The limiter's abstract state.
    pub closed spec fn state(&self) -> LimiterState {
        LimiterState { count: self.count, window_start_ms: self.window_start_ms }
    }

    /// A limiter whose first window began at time zero.
    pub fn new() -> (l: Self)
        ensures
            l.state() == (LimiterState { count: 0, window_start_ms: 0 }),
    {
        LogRateLimiter { count: 0, window_start_ms: 0 }
    }

    /// Counts a call at `now_ms` and says whether its event may be emitted.
    pub fn allow(&mut self, now_ms: u64) -> (ok: bool)
        ensures
            ok == admits(old(self).state(), now_ms),
            final(self).state() == limiter_step(old(self).state(), now_ms),
    {
        if now_ms.wrapping_sub(self.window_start_ms) > LOG_WINDOW_MS {
            self.window_start_ms = now_ms;
            self.count = 0;
        }
        let seen = self.count;
        self.count = seen.wrapping_add(1);
        seen < LOG_EVENTS_PER_WINDOW
    }
}

/// Within one window at most five events get through: however many calls
/// are made before more than a second has passed since the window began,
/// no more than what is left of the window's five are admitted.
pub proof fn lemma_at_most_five_per_window(s: LimiterState, times: Seq<u64>)
    requires
        forall|i: int| 0 <= i < times.len() ==> elapsed_ms(#[trigger] times[i], s.window_start_ms) <= LOG_WINDOW_MS,
        s.count + times.len() <= u64::MAX,
    ensures
        admitted_count(s, times) <= if s.count >= LOG_EVENTS_PER_WINDOW {
            0
        } else {
            LOG_EVENTS_PER_WINDOW - s.count
        },
    decreases times.len(),
{
    if times.len() > 0 {
        let next = limiter_step(s, times[0]);
        assert(next.window_start_ms == s.window_start_ms);
        assert(next.count == s.count + 1);
        assert forall|i: int| 0 <= i < times.drop_first().len() implies elapsed_ms(
            #[trigger] times.drop_first()[i],
            next.window_start_ms,
        ) <= LOG_WINDOW_MS by {
            assert(times.drop_first()[i] == times[i + 1]);
        }
        lemma_at_most_five_per_window(next, times.drop_first());
    }
}

/// A call made after the window has ended always gets through.
pub proof fn lemma_new_window_admits(s: LimiterState, now: u64)
    requires
        elapsed_ms(now, s.window_start_ms) > LOG_WINDOW_MS,
    ensures
        admits(s, now),
        limiter_step(s, now) == (LimiterState { count: 1, window_start_ms: now }),
{
}

} // verus!
