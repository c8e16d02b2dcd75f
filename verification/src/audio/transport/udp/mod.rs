//! Native low-latency UDP transport.

pub mod crypto;
pub mod drift;
pub mod jitter;
pub mod packet;
pub mod session;
