//! Audio streaming: engine decisions, transports and stream formats.

pub mod chunked;
pub mod constants;
pub mod devices;
pub mod engine;
pub mod error;
pub mod clocked;
pub mod manager;
pub mod stats;
pub mod transport;
pub mod wav_helper;
