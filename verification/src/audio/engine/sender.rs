//! Decisions of the TCP send loop, as a state machine: what to do with the
//! ring while no peer is connected, when to retry a failed connection and
//! for how long to wait, when the WAV header is due, when the startup
//! prefill is satisfied, and when a write error ends the stream. The loop
//! itself (sockets, the ring, sleeping, the clock) stays at the edge and
//! feeds the outcomes back in.

use super::plan::{disconnect_drain, jittered_delay_ms, next_retry_delay_ms};
use vstd::prelude::*;

verus! {

/// Milliseconds between the first and the second connection attempt.
pub const INITIAL_RETRY_DELAY_MS: u64 = 2000;

/// Longest wait between connection attempts.
pub const MAX_RETRY_DELAY_MS: u64 = 60000;

/// Shortest wait between connection attempts, after jitter.
pub const MIN_RETRY_DELAY_MS: u64 = 2000;

/// An outage this long flushes the whole ring instead of draining it.
pub const DISCONNECT_FLUSH_THRESHOLD_MS: u64 = 3000;

/// Fixed settings of one send loop.
#[derive(Debug, Clone, Copy, PartialEq, Eq, Structural)]
pub struct SenderConfig {
    /// Listening for peers (server) rather than connecting out (client).
    pub is_server: bool,
    /// A client retries a failed or broken connection.
    pub auto_reconnect: bool,
    /// The configured stream format is WAV (header + PCM).
    pub wav_format: bool,
    /// Samples buffered before the first send of a stream.
    pub prefill_samples: usize,
    /// Samples in one send chunk.
    pub chunk_samples: usize,
    /// Capture rate of the ring (stereo samples).
    pub capture_rate: u32,
}

/// Abstract state of the send loop.
pub struct SenderModel {
    pub config: SenderConfig,
    pub running: bool,
    pub connected: bool,
    pub prefilled: bool,
    pub disconnected_since_ms: Option<u64>,
    pub retry_delay_ms: u64,
    pub use_chunked: bool,
    pub wav_header_sent: bool,
}

impl SenderModel {
    /// The retry delay stays between the initial delay and the cap.
    pub open spec fn wf(self) -> bool {
        &&& INITIAL_RETRY_DELAY_MS <= self.retry_delay_ms <= MAX_RETRY_DELAY_MS
        &&& self.config.capture_rate * 2 <= usize::MAX
    }

    /// The WAV header is owed on the current connection: a server streaming
    /// WAV, or answering an HTTP client, that has not sent it yet.
    pub open spec fn header_due(self) -> bool {
        self.config.is_server && (self.use_chunked || self.config.wav_format) && !self.wav_header_sent
    }

    /// Connected and sending, but the ring holds less than a chunk.
    pub open spec fn starved(self, buffered: usize) -> bool {
        self.connected && self.prefilled && buffered < self.config.chunk_samples
    }
}

/// What to do with the ring during an outage.
#[derive(Debug, Clone, Copy, PartialEq, Eq, Structural)]
pub enum OutageAction {
    /// The outage is long: drop this many samples (everything buffered) and
    /// wait for fresh audio before sending again.
    Flush(usize),
    /// The outage is short: drop this many samples (whole frames) to keep
    /// the backlog from growing.
    Drain(usize),
}

/// What to do after a failed connection attempt.
#[derive(Debug, Clone, Copy, PartialEq, Eq, Structural)]
pub enum RetryAction {
    /// Reconnecting is off: stop the stream.
    Stop,
    /// Wait this many milliseconds, then try again.
    RetryAfter(u64),
}

/// How a write of audio to the peer ended.
#[derive(Debug, Clone, Copy, PartialEq, Eq, Structural)]
pub enum WriteOutcome {
    Written,
    WouldBlock,
    Failed,
}

/// The state after an outage step at `now_ms` with `buffered` samples in the ring.
pub open spec fn outage_step(m: SenderModel, buffered: usize, now_ms: u64) -> (SenderModel, OutageAction) {
    let since = match m.disconnected_since_ms {
        Some(t) => t,
        None => now_ms,
    };
    let long = now_ms >= since && now_ms - since >= DISCONNECT_FLUSH_THRESHOLD_MS;
    if long {
        (SenderModel { disconnected_since_ms: Some(since), prefilled: false, ..m }, OutageAction::Flush(buffered))
    } else {
        let tenth = m.config.capture_rate * 2 / 10;
        let amount = if tenth <= buffered {
            tenth
        } else {
            buffered as int
        };
        (SenderModel { disconnected_since_ms: Some(since), ..m }, OutageAction::Drain((amount - amount % 2) as usize))
    }
}

/// The state after a failed connection attempt whose clock read `subsec_nanos`.
pub open spec fn connect_failed_step(m: SenderModel, subsec_nanos: u32) -> (SenderModel, RetryAction) {
    if !m.config.auto_reconnect {
        (SenderModel { running: false, ..m }, RetryAction::Stop)
    } else {
        let jitter = (subsec_nanos % 1000) as int;
        let delay = if m.retry_delay_ms + jitter - 500 >= MIN_RETRY_DELAY_MS {
            (m.retry_delay_ms + jitter - 500) as u64
        } else {
            MIN_RETRY_DELAY_MS
        };
        let next = if m.retry_delay_ms * 2 <= MAX_RETRY_DELAY_MS {
            (m.retry_delay_ms * 2) as u64
        } else {
            MAX_RETRY_DELAY_MS
        };
        (SenderModel { retry_delay_ms: next, ..m }, RetryAction::RetryAfter(delay))
    }
}

/// The state after a write that ended with `outcome`: a failure drops the
/// connection, and ends the stream for a client that does not reconnect.
pub open spec fn write_step(m: SenderModel, outcome: WriteOutcome) -> SenderModel {
    match outcome {
        WriteOutcome::Failed => SenderModel {
            connected: false,
            running: m.running && (m.config.is_server || m.config.auto_reconnect),
            ..m
        },
        _ => m,
    }
}

/// The send loop's state.
pub struct SenderState {
    config: SenderConfig,
    running: bool,
    connected: bool,
    prefilled: bool,
    disconnected_since_ms: Option<u64>,
    retry_delay_ms: u64,
    use_chunked: bool,
    wav_header_sent: bool,
}

impl View for SenderState {
    type V = SenderModel;

    closed spec fn view(&self) -> SenderModel {
        SenderModel {
            config: self.config,
            running: self.running,
            connected: self.connected,
            prefilled: self.prefilled,
            disconnected_since_ms: self.disconnected_since_ms,
            retry_delay_ms: self.retry_delay_ms,
            use_chunked: self.use_chunked,
            wav_header_sent: self.wav_header_sent,
        }
    }
}

impl SenderState {
    /// The retry delay stays between the initial delay and the cap, and the
    /// capture rate leaves room for a stereo tenth of a second.
    #[verifier::type_invariant]
    spec fn inv(self) -> bool {
        &&& INITIAL_RETRY_DELAY_MS <= self.retry_delay_ms <= MAX_RETRY_DELAY_MS
        &&& self.config.capture_rate * 2 <= usize::MAX
    }

    /// A running, unconnected loop that has buffered nothing yet.
    pub fn new(config: SenderConfig) -> (s: Self)
        requires
            config.capture_rate * 2 <= usize::MAX,
        ensures
            s@ == (SenderModel {
                config,
                running: true,
                connected: false,
                prefilled: false,
                disconnected_since_ms: None,
                retry_delay_ms: INITIAL_RETRY_DELAY_MS,
                use_chunked: false,
                wav_header_sent: false,
            }),
            s@.wf(),
    {
        SenderState {
            config,
            running: true,
            connected: false,
            prefilled: false,
            disconnected_since_ms: None,
            retry_delay_ms: INITIAL_RETRY_DELAY_MS,
            use_chunked: false,
            wav_header_sent: false,
        }
    }

    /// Whether the loop should keep going.
    pub fn is_running(&self) -> (r: bool)
        ensures
            r == self@.running,
    {
        self.running
    }

    /// Whether a peer is connected.
    pub fn is_connected(&self) -> (r: bool)
        ensures
            r == self@.connected,
    {
        self.connected
    }

    /// Whether the current connection is an HTTP client (chunked transfer).
    pub fn use_chunked(&self) -> (r: bool)
        ensures
            r == self@.use_chunked,
    {
        self.use_chunked
    }

    /// Stops the loop (the user asked to).
    pub fn stop(&mut self)
        ensures
            final(self)@ == (SenderModel { running: false, ..old(self)@ }),
    {
        proof {
            use_type_invariant(&*self);
        }
        self.running = false;
    }

    /// Whether the ring is starved for the current stream: connected and
    /// past the prefill, with less than a chunk buffered (only a sustained
    /// starvation counts as a glitch; that is the starvation detector's job).
    pub fn is_starved(&self, buffered: usize) -> (r: bool)
        ensures
            r == self@.starved(buffered),
    {
        self.connected && self.prefilled && buffered < self.config.chunk_samples
    }

    /// Handles the ring while no peer is connected and samples are buffered:
    /// the outage clock starts at the first such call; once it has run for
    /// the flush threshold everything buffered is dropped and the next
    /// stream prefills again, before that a tenth of a second is drained.
    pub fn outage(&mut self, buffered: usize, now_ms: u64) -> (a: OutageAction)
        ensures
            old(self)@.wf(),
            (final(self)@, a) == outage_step(old(self)@, buffered, now_ms),
            final(self)@.wf(),
    {
        proof {
            use_type_invariant(&*self);
        }
        let since = match self.disconnected_since_ms {
            Some(t) => t,
            None => now_ms,
        };
        self.disconnected_since_ms = Some(since);
        if now_ms >= since && now_ms - since >= DISCONNECT_FLUSH_THRESHOLD_MS {
            self.prefilled = false;
            OutageAction::Flush(buffered)
        } else {
            OutageAction::Drain(disconnect_drain(self.config.capture_rate, buffered))
        }
    }

    /// A client connection was established.
    pub fn on_connected(&mut self)
        ensures
            final(self)@ == (SenderModel {
                connected: true,
                disconnected_since_ms: None,
                retry_delay_ms: INITIAL_RETRY_DELAY_MS,
                ..old(self)@
            }),
    {
        proof {
            use_type_invariant(&*self);
        }
        self.connected = true;
        self.disconnected_since_ms = None;
        self.retry_delay_ms = INITIAL_RETRY_DELAY_MS;
    }

    /// A server accepted a peer that passed the allowlist; `is_http` says
    /// whether it opened with an HTTP request (then served chunked WAV).
    /// The new connection owes the WAV header again.
    pub fn on_accepted(&mut self, is_http: bool)
        ensures
            final(self)@ == (SenderModel {
                connected: true,
                use_chunked: is_http,
                wav_header_sent: false,
                disconnected_since_ms: None,
                ..old(self)@
            }),
    {
        proof {
            use_type_invariant(&*self);
        }
        self.connected = true;
        self.use_chunked = is_http;
        self.wav_header_sent = false;
        self.disconnected_since_ms = None;
    }

    /// A client's connection attempt failed: stop when reconnecting is off,
    /// otherwise wait the current delay with +/-500 ms of jitter (taken from
    /// the clock's sub-second nanoseconds, never below the minimum) and
    /// double the delay up to the cap.
    pub fn on_connect_failed(&mut self, subsec_nanos: u32) -> (a: RetryAction)
        ensures
            old(self)@.wf(),
            (final(self)@, a) == connect_failed_step(old(self)@, subsec_nanos),
            final(self)@.wf(),
    {
        proof {
            use_type_invariant(&*self);
        }
        if !self.config.auto_reconnect {
            self.running = false;
            return RetryAction::Stop;
        }
        let delay = jittered_delay_ms(self.retry_delay_ms, subsec_nanos, MIN_RETRY_DELAY_MS);
        self.retry_delay_ms = next_retry_delay_ms(self.retry_delay_ms, MAX_RETRY_DELAY_MS);
        RetryAction::RetryAfter(delay)
    }

    /// Whether the WAV header must be written before anything else on this connection.
    pub fn header_due(&self) -> (r: bool)
        ensures
            r == self@.header_due(),
    {
        self.config.is_server && (self.use_chunked || self.config.wav_format) && !self.wav_header_sent
    }

    /// The WAV header was written.
    pub fn on_header_sent(&mut self)
        ensures
            final(self)@ == (SenderModel { wav_header_sent: true, ..old(self)@ }),
    {
        proof {
            use_type_invariant(&*self);
        }
        self.wav_header_sent = true;
    }

    /// Whether audio may be sent with `buffered` samples in the ring: once
    /// the prefill has been reached it stays reached until a flush.
    pub fn prefill_ready(&mut self, buffered: usize) -> (ready: bool)
        ensures
            ready == (old(self)@.prefilled || buffered >= old(self)@.config.prefill_samples),
            final(self)@ == (SenderModel { prefilled: ready, ..old(self)@ }),
    {
        proof {
            use_type_invariant(&*self);
        }
        if !self.prefilled && buffered >= self.config.prefill_samples {
            self.prefilled = true;
        }
        self.prefilled
    }

    /// Records how a write of audio ended.
    pub fn on_write(&mut self, outcome: WriteOutcome)
        ensures
            final(self)@ == write_step(old(self)@, outcome),
    {
        proof {
            use_type_invariant(&*self);
        }
        match outcome {
            WriteOutcome::Failed => {
                self.connected = false;
                if !self.config.is_server && !self.config.auto_reconnect {
                    self.running = false;
                }
            },
            _ => {},
        }
    }
}

/// Retrying never waits less than the minimum nor more than the cap plus
/// half a second, and each failure doubles the next delay until it reaches
/// the cap, where it stays.
pub proof fn lemma_retry_backoff(m: SenderModel, subsec_nanos: u32)
    requires
        m.wf(),
        m.config.auto_reconnect,
    ensures
        ({
            let (n, a) = connect_failed_step(m, subsec_nanos);
            &&& n.wf()
            &&& a matches RetryAction::RetryAfter(d) && MIN_RETRY_DELAY_MS <= d <= MAX_RETRY_DELAY_MS + 500
            &&& n.retry_delay_ms >= m.retry_delay_ms
            &&& (m.retry_delay_ms * 2 <= MAX_RETRY_DELAY_MS ==> n.retry_delay_ms == m.retry_delay_ms * 2)
            &&& (m.retry_delay_ms == MAX_RETRY_DELAY_MS ==> n.retry_delay_ms == MAX_RETRY_DELAY_MS)
            &&& n.running == m.running
        }),
{
}

/// A client that does not reconnect stops at its first failure, whether the
/// connection attempt or a later write failed; a server never stops on its own.
pub proof fn lemma_no_reconnect_stops(m: SenderModel, subsec_nanos: u32)
    ensures
        !m.config.auto_reconnect ==> !connect_failed_step(m, subsec_nanos).0.running,
        !m.config.auto_reconnect ==> connect_failed_step(m, subsec_nanos).1 == RetryAction::Stop,
        !m.config.is_server && !m.config.auto_reconnect ==> !write_step(m, WriteOutcome::Failed).running,
        m.config.is_server ==> write_step(m, WriteOutcome::Failed).running == m.running,
        !write_step(m, WriteOutcome::Failed).connected,
{
}

/// A long outage flushes everything buffered and makes the next stream
/// prefill again; a short one drains at most what is buffered, in whole
/// stereo frames. Either way the outage clock keeps its first reading.
pub proof fn lemma_outage_handling(m: SenderModel, buffered: usize, now_ms: u64)
    requires
        m.wf(),
    ensures
        ({
            let (n, a) = outage_step(m, buffered, now_ms);
            &&& n.wf()
            &&& n.disconnected_since_ms is Some
            &&& (m.disconnected_since_ms matches Some(t) ==> n.disconnected_since_ms == Some(t))
            &&& match a {
                OutageAction::Flush(k) => k == buffered && !n.prefilled,
                OutageAction::Drain(k) => k <= buffered && k % 2 == 0 && n.prefilled == m.prefilled,
            }
        }),
{
    let tenth = m.config.capture_rate * 2 / 10;
    let amount = if tenth <= buffered {
        tenth
    } else {
        buffered as int
    };
    assert(amount >= 0);
    super::pacing::lemma_round_down_to_multiple(amount, 2);
}

/// Every connection a server accepts owes the WAV header (when it streams
/// WAV or serves HTTP) until it is written, and owes it no more afterwards.
pub proof fn lemma_header_once_per_connection(m: SenderModel, is_http: bool)
    requires
        m.config.is_server,
    ensures
        ({
            let accepted = SenderModel {
                connected: true,
                use_chunked: is_http,
                wav_header_sent: false,
                disconnected_since_ms: None,
                ..m
            };
            &&& accepted.header_due() == (is_http || m.config.wav_format)
            &&& !(SenderModel { wav_header_sent: true, ..accepted }).header_due()
        }),
{
}

} // verus!
