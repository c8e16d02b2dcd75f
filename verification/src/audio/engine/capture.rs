//! Capture-side configuration: resolving a requested hardware buffer size
//! against what the device supports.

use vstd::prelude::*;

verus! {

/// The buffer sizes a device supports, in frames.
#[derive(Clone, Copy, Debug, PartialEq, Eq, Structural)]
pub enum SupportedBufferSize {
    Range { min: u32, max: u32 },
    Unknown,
}

/// The buffer size to open a stream with.
#[derive(Clone, Copy, Debug, PartialEq, Eq, Structural)]
pub enum BufferSize {
    /// Let the driver choose.
    Default,
    /// A fixed number of frames.
    Fixed(u32),
}

/// Resolves a requested hardware buffer size (in frames) against the
/// device's supported range. Out-of-range requests are clamped; `Unknown`
/// ranges and a zero (unset) request fall back to the driver default.
pub fn resolve_buffer_size(requested: u32, supported: &SupportedBufferSize) -> (b: BufferSize)
    requires
        *supported matches SupportedBufferSize::Range { min, max } ==> min <= max,
    ensures
        b == match *supported {
            SupportedBufferSize::Range { min, max } => if requested == 0 {
                BufferSize::Default
            } else if requested < min {
                BufferSize::Fixed(min)
            } else if requested > max {
                BufferSize::Fixed(max)
            } else {
                BufferSize::Fixed(requested)
            },
            SupportedBufferSize::Unknown => BufferSize::Default,
        },
{
    match *supported {
        SupportedBufferSize::Range { min, max } => {
            if requested == 0 {
                BufferSize::Default
            } else if requested < min {
                BufferSize::Fixed(min)
            } else if requested > max {
                BufferSize::Fixed(max)
            } else {
                BufferSize::Fixed(requested)
            }
        },
        SupportedBufferSize::Unknown => BufferSize::Default,
    }
}

} // verus!
