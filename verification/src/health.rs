//! Connection health: packet and failure counters, ring occupancy, and the
//! status grade derived from them.

use vstd::prelude::*;
use vstd::string::StringExecFns;

verus! {

/// Connection health grade, best first.
#[derive(Debug, Clone, Copy, PartialEq, Eq, Structural)]
pub enum HealthStatus {
    /// Everything working perfectly.
    Excellent,
    /// Minor issues, still functional.
    Good,
    /// Noticeable issues, may affect quality.
    Degraded,
    /// Severe issues, dropouts likely.
    Poor,
}

/// Whether `used` is more than `percent` per cent of `size` (a non-empty use
/// of an empty ring counts as full).
pub open spec fn fill_above(used: int, size: int, percent: int) -> bool {
    used * 100 > size * percent
}

/// The grade for a failure count and a ring occupancy: more than 10 failures
/// or over 90% full is poor, more than 5 or over 70% degraded, any failure or
/// over 50% good, otherwise excellent.
pub open spec fn health_status(failures: u64, used: int, size: int) -> HealthStatus {
    if failures > 10 || fill_above(used, size, 90) {
        HealthStatus::Poor
    } else if failures > 5 || fill_above(used, size, 70) {
        HealthStatus::Degraded
    } else if failures > 0 || fill_above(used, size, 50) {
        HealthStatus::Good
    } else {
        HealthStatus::Excellent
    }
}

/// The advice shown for each grade.
pub open spec fn suggested_action_text(status: HealthStatus) -> Seq<char> {
    match status {
        HealthStatus::Poor => "Reduce Bitrate (Critical)"@,
        HealthStatus::Degraded => "Reduce Bitrate"@,
        HealthStatus::Good => "Monitor"@,
        HealthStatus::Excellent => "Maintain"@,
    }
}

impl HealthStatus {
    /// The advice shown to the user for this grade.
    pub fn suggested_action(self) -> (s: String)
        ensures
            s@ == suggested_action_text(self),
    {
        match self {
            HealthStatus::Poor => String::from_str("Reduce Bitrate (Critical)"),
            HealthStatus::Degraded => String::from_str("Reduce Bitrate"),
            HealthStatus::Good => String::from_str("Monitor"),
            HealthStatus::Excellent => String::from_str("Maintain"),
        }
    }
}

/// `x + 1` as a wrapping 64-bit counter.
pub open spec fn bump(x: u64) -> u64 {
    if x == u64::MAX {
        0
    } else {
        (x + 1) as u64
    }
}

/// Counters of one stream's health. Counters wrap like the atomics they
/// stand for.
pub struct HealthMonitor {
    packets_sent: u64,
    tcp_failures: u64,
    ring_buffer_size: usize,
    ring_buffer_used: usize,
    last_packet_count: u64,
    sample_rate: u32,
    channels: u16,
}

impl HealthMonitor {
    /// Packets sent so far.
    pub closed spec fn packets(&self) -> u64 {
        self.packets_sent
    }

    /// Write failures so far.
    pub closed spec fn failures(&self) -> u64 {
        self.tcp_failures
    }

    /// Ring capacity the occupancy is measured against.
    pub closed spec fn size(&self) -> usize {
        self.ring_buffer_size
    }

    /// Last reported ring occupancy.
    pub closed spec fn used(&self) -> usize {
        self.ring_buffer_used
    }

    /// Packet count at the last check.
    pub closed spec fn checked_packets(&self) -> u64 {
        self.last_packet_count
    }

    /// Stream sample rate.
    pub closed spec fn rate(&self) -> u32 {
        self.sample_rate
    }

    /// Stream channel count.
    pub closed spec fn channel_count(&self) -> u16 {
        self.channels
    }

    /// A monitor with all counters at zero.
    pub fn new(ring_buffer_size: usize, sample_rate: u32, channels: u16) -> (m: Self)
        ensures
            m.packets() == 0,
            m.failures() == 0,
            m.size() == ring_buffer_size,
            m.used() == 0,
            m.checked_packets() == 0,
            m.rate() == sample_rate,
            m.channel_count() == channels,
    {
        HealthMonitor {
            packets_sent: 0,
            tcp_failures: 0,
            ring_buffer_size,
            ring_buffer_used: 0,
            last_packet_count: 0,
            sample_rate,
            channels,
        }
    }

    /// Counts one sent packet.
    pub fn increment_packets(&mut self)
        ensures
            final(self).packets() == bump(old(self).packets()),
            final(self).failures() == old(self).failures(),
            final(self).used() == old(self).used(),
            final(self).size() == old(self).size(),
            final(self).checked_packets() == old(self).checked_packets(),
            final(self).rate() == old(self).rate(),
            final(self).channel_count() == old(self).channel_count(),
    {
        self.packets_sent = if self.packets_sent == u64::MAX {
            0
        } else {
            self.packets_sent + 1
        };
    }

    /// Counts one failed write.
    pub fn increment_failures(&mut self)
        ensures
            final(self).failures() == bump(old(self).failures()),
            final(self).packets() == old(self).packets(),
            final(self).used() == old(self).used(),
            final(self).size() == old(self).size(),
            final(self).checked_packets() == old(self).checked_packets(),
            final(self).rate() == old(self).rate(),
            final(self).channel_count() == old(self).channel_count(),
    {
        self.tcp_failures = if self.tcp_failures == u64::MAX {
            0
        } else {
            self.tcp_failures + 1
        };
    }

    /// Records the current ring occupancy.
    pub fn update_buffer_used(&mut self, used: usize)
        ensures
            final(self).used() == used,
            final(self).packets() == old(self).packets(),
            final(self).failures() == old(self).failures(),
            final(self).size() == old(self).size(),
            final(self).checked_packets() == old(self).checked_packets(),
            final(self).rate() == old(self).rate(),
            final(self).channel_count() == old(self).channel_count(),
    {
        self.ring_buffer_used = used;
    }

    /// The current grade.
    pub fn status(&self) -> (s: HealthStatus)
        ensures
            s == health_status(self.failures(), self.used() as int, self.size() as int),
    {
        let used = self.ring_buffer_used as u128 * 100;
        let size = self.ring_buffer_size as u128;
        if self.tcp_failures > 10 || used > size * 90 {
            HealthStatus::Poor
        } else if self.tcp_failures > 5 || used > size * 70 {
            HealthStatus::Degraded
        } else if self.tcp_failures > 0 || used > size * 50 {
            HealthStatus::Good
        } else {
            HealthStatus::Excellent
        }
    }

    /// Starts a new measurement interval: returns the packet count and the
    /// packets sent since the previous call (modulo 2^64, as the counter wraps).
    pub fn take_packet_delta(&mut self) -> (r: (u64, u64))
        ensures
            r.0 == old(self).packets(),
            r.1 == (old(self).packets() - old(self).checked_packets()) % 0x1_0000_0000_0000_0000int,
            final(self).checked_packets() == old(self).packets(),
            final(self).packets() == old(self).packets(),
            final(self).failures() == old(self).failures(),
            final(self).used() == old(self).used(),
            final(self).size() == old(self).size(),
            final(self).rate() == old(self).rate(),
            final(self).channel_count() == old(self).channel_count(),
    {
        let sent = self.packets_sent;
        let delta = sent.wrapping_sub(self.last_packet_count);
        self.last_packet_count = sent;
        (sent, delta)
    }

    /// Packets sent so far.
    pub fn packets_sent(&self) -> (n: u64)
        ensures
            n == self.packets(),
    {
        self.packets_sent
    }

    /// Write failures so far.
    pub fn tcp_failures(&self) -> (n: u64)
        ensures
            n == self.failures(),
    {
        self.tcp_failures
    }

    /// Last reported ring occupancy.
    pub fn ring_buffer_used(&self) -> (n: usize)
        ensures
            n == self.used(),
    {
        self.ring_buffer_used
    }

    /// Ring capacity.
    pub fn ring_buffer_size(&self) -> (n: usize)
        ensures
            n == self.size(),
    {
        self.ring_buffer_size
    }

    /// Stream sample rate.
    pub fn sample_rate(&self) -> (n: u32)
        ensures
            n == self.rate(),
    {
        self.sample_rate
    }

    /// Stream channel count.
    pub fn channels(&self) -> (n: u16)
        ensures
            n == self.channel_count(),
    {
        self.channels
    }
}

} // verus!
