//! Audio engine decisions: buffering targets, pacing, device negotiation and
//! latency profiles.

pub mod buffer;
pub mod capture;
pub mod convert;
pub mod device;
pub mod latency;
pub mod pacing;
pub mod pcm;
pub mod plan;
pub mod sender;
