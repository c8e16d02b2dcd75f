//! Verified core of an audio streamer: the native UDP wire format and its
//! AEAD framing, de-jitter and replay protection, the framed TCP protocol,
//! WAV/HTTP framing, device-config negotiation, latency profiles and the
//! buffering controllers that keep standing latency bounded.

pub mod text;
pub mod wire;
pub mod audio;
pub mod protocol;
pub mod encoder;
pub mod health;
