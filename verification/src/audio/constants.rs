//! Tuning constants of the streaming engine.

use vstd::prelude::*;

verus! {

/// Interval between adaptive buffer health checks, in seconds.
pub const BUFFER_CHECK_INTERVAL_SECS: u64 = 10;

/// Maximum delay between reconnection attempts, in seconds.
pub const MAX_RETRY_DELAY_SECS: u64 = 60;

/// How long to wait after disconnect before flushing the ring buffer, in seconds.
pub const DISCONNECT_FLUSH_THRESHOLD_SECS: u64 = 3;

/// Interval between heartbeat/stats emissions to the frontend, in seconds.
pub const HEARTBEAT_INTERVAL_SECS: u64 = 30;

/// Minimum ring buffer duration for loopback devices (ms).
pub const LOOPBACK_MIN_BUFFER_MS: u32 = 8000;

/// Minimum ring buffer duration for non-loopback devices (ms).
pub const DEFAULT_MIN_BUFFER_MS: u32 = 5000;

/// Prefill duration as a fraction of sample rate (1/N of a second).
pub const PREFILL_FRACTION: usize = 5;

/// Initial reconnection delay, in seconds.
pub const INITIAL_RETRY_DELAY_SECS: u64 = 2;

/// Minimum retry delay after jitter (ms).
pub const MIN_RETRY_DELAY_MS: u64 = 2000;

/// Minimum adaptive buffer for loopback (ms).
pub const ADAPTIVE_MIN_LOOPBACK_MS: u32 = 4000;

/// Minimum adaptive buffer for non-loopback (ms).
pub const ADAPTIVE_MIN_DEFAULT_MS: u32 = 2000;

/// Adaptive buffer adjustment step (ms).
pub const ADAPTIVE_BUFFER_STEP_MS: u32 = 500;

/// Quality reporting interval (seconds).
pub const QUALITY_REPORT_INTERVAL_SECS: u64 = 5;

/// Channel capacity for the audio command queue.
pub const COMMAND_CHANNEL_CAPACITY: usize = 16;

} // verus!
