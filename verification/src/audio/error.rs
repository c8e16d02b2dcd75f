//! Errors of audio streaming operations, with the text the user sees.

use vstd::prelude::*;
use vstd::string::StringExecFns;

verus! {

/// Errors that can occur in audio streaming operations.
#[derive(Debug)]
pub enum AudioError {
    NoDeviceFound,
    NoSupportedConfig,
    StreamBuildError(String),
    StreamPlayError(String),
    NetworkError(String),
    DeviceNotFound(String),
    ChannelError(String),
    ConnectionFailed(String),
    IpDetectionFailed(String),
}

/// The text shown for each error.
pub open spec fn error_text(e: AudioError) -> Seq<char> {
    match e {
        AudioError::NoDeviceFound => "No audio device found"@,
        AudioError::NoSupportedConfig => "No supported audio configuration found"@,
        AudioError::StreamBuildError(s) => "Failed to build audio stream: "@ + s@,
        AudioError::StreamPlayError(s) => "Failed to play audio stream: "@ + s@,
        AudioError::NetworkError(s) => "Network error: "@ + s@,
        AudioError::DeviceNotFound(s) => "Device not found: "@ + s@,
        AudioError::ChannelError(s) => "Internal channel error: "@ + s@,
        AudioError::ConnectionFailed(s) => "Connection failed: "@ + s@,
        AudioError::IpDetectionFailed(s) => "IP detection failed: "@ + s@,
    }
}

/// `prefix` followed by `detail`.
fn prefixed(prefix: &str, detail: &String) -> (r: String)
    ensures
        r@ == prefix@ + detail@,
{
    let mut r = String::from_str(prefix);
    r.append(detail.as_str());
    r
}

impl AudioError {
    /// The text shown to the user for this error.
    pub fn message(&self) -> (m: String)
        ensures
            m@ == error_text(*self),
    {
        match self {
            AudioError::NoDeviceFound => String::from_str("No audio device found"),
            AudioError::NoSupportedConfig => String::from_str("No supported audio configuration found"),
            AudioError::StreamBuildError(s) => prefixed("Failed to build audio stream: ", s),
            AudioError::StreamPlayError(s) => prefixed("Failed to play audio stream: ", s),
            AudioError::NetworkError(s) => prefixed("Network error: ", s),
            AudioError::DeviceNotFound(s) => prefixed("Device not found: ", s),
            AudioError::ChannelError(s) => prefixed("Internal channel error: ", s),
            AudioError::ConnectionFailed(s) => prefixed("Connection failed: ", s),
            AudioError::IpDetectionFailed(s) => prefixed("IP detection failed: ", s),
        }
    }
}

} // verus!
