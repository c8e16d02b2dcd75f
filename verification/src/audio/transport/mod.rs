//! Network transport: wire formats, framing and peer policy.

pub mod allowlist;
pub mod discovery;
pub mod dscp;
pub mod tcp_server;
pub mod udp;
