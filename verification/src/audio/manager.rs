//! The audio command loop's bookkeeping: at most one stream (source or sink)
//! runs at a time, a start replaces whatever runs, and a stop leaves nothing
//! running. The loop itself owns the streams and performs the starts.

use vstd::prelude::*;

verus! {

/// The kind of command the loop received.
#[derive(Debug, Clone, Copy, PartialEq, Eq, Structural)]
pub enum CommandKind {
    /// Start streaming a capture device to the network.
    StartSource,
    /// Start playing a network source on an output device.
    StartSink,
    /// Stop whatever runs.
    Stop,
}

/// What the loop must do for a command.
#[derive(Debug, Clone, Copy, PartialEq, Eq, Structural)]
pub struct SlotStep {
    /// Stop the stream that is running first.
    pub stop_current: bool,
    /// Then start a stream of the command's kind.
    pub start: bool,
}

/// The step for `cmd` when a stream is (`active`) or is not running.
pub open spec fn slot_step(active: bool, cmd: CommandKind) -> SlotStep {
    SlotStep { stop_current: active, start: cmd != CommandKind::Stop }
}

/// Whether a stream is running in the loop.
pub struct StreamSlot {
    active: bool,
}

impl StreamSlot {
    /// Whether a stream runs.
    pub closed spec fn is_active(&self) -> bool {
        self.active
    }

    /// Nothing runs yet.
    pub fn new() -> (s: Self)
        ensures
            !s.is_active(),
    {
        StreamSlot { active: false }
    }

    /// Whether a stream runs.
    pub fn active(&self) -> (r: bool)
        ensures
            r == self.is_active(),
    {
        self.active
    }

    /// Decides what to do for `cmd`: any running stream is stopped first,
    /// and a start command then starts its stream. Afterwards nothing runs
    /// until the start is reported to have succeeded.
    pub fn on_command(&mut self, cmd: CommandKind) -> (step: SlotStep)
        ensures
            step == slot_step(old(self).is_active(), cmd),
            !final(self).is_active(),
    {
        let step = SlotStep { stop_current: self.active, start: cmd != CommandKind::Stop };
        self.active = false;
        step
    }

    /// Records whether the stream just started is playing (it was built and
    /// its playback started).
    pub fn on_started(&mut self, playing: bool)
        requires
            !old(self).is_active(),
        ensures
            final(self).is_active() == playing,
    {
        self.active = playing;
    }
}

/// A start never leaves two streams running: if one runs it is stopped
/// before the new one starts; and a stop leaves nothing running.
pub proof fn lemma_one_stream_at_a_time(active: bool, cmd: CommandKind)
    ensures
        slot_step(active, cmd).start && active ==> slot_step(active, cmd).stop_current,
        cmd == CommandKind::Stop ==> !slot_step(active, cmd).start && slot_step(active, cmd).stop_current == active,
{
}

} // verus!
