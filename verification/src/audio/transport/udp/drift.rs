//! Clock-drift corrections: when the smoothed playback level trends above the
//! target band a mini-chunk is dropped, below it silence is inserted. A
//! cooldown keeps corrections rare so they stay inaudible. (The smoothing of
//! the level is floating point and happens at the audio edge; this module
//! decides what to do with where it stands.)

use crate::audio::engine::plan::{drift_insert, drift_skip};
use vstd::prelude::*;

verus! {

/// The correction to apply to the playback buffer.
#[derive(Debug, Clone, Copy, PartialEq, Eq, Structural)]
pub enum DriftAction {
    Hold,
    DropChunk,
    InsertSilence,
}

/// The decision and the new tick counter for one observation: during the
/// cooldown nothing happens and the counter advances; afterwards a level
/// above the band drops a chunk, below it inserts silence (either resets the
/// counter), and inside it nothing happens.
pub open spec fn drift_step(cooldown: u32, since: u32, above: bool, below: bool) -> (DriftAction, u32) {
    if since < cooldown {
        (DriftAction::Hold, (since + 1) as u32)
    } else if above {
        (DriftAction::DropChunk, 0)
    } else if below {
        (DriftAction::InsertSilence, 0)
    } else {
        (DriftAction::Hold, since)
    }
}

/// The decisions for a run of observations, each `(above, below)`.
pub open spec fn drift_run(cooldown: u32, since: u32, obs: Seq<(bool, bool)>) -> Seq<DriftAction>
    decreases obs.len(),
{
    if obs.len() == 0 {
        Seq::empty()
    } else {
        let (a, next) = drift_step(cooldown, since, obs[0].0, obs[0].1);
        seq![a] + drift_run(cooldown, next, obs.drop_first())
    }
}

/// The cooldown between corrections.
pub struct DriftCooldown {
    cooldown: u32,
    since: u32,
}

impl DriftCooldown {
    /// Ticks that must pass between corrections.
    pub closed spec fn ticks(&self) -> u32 {
        self.cooldown
    }

    /// Ticks observed since the last correction (or the start), up to the cooldown.
    pub closed spec fn elapsed(&self) -> u32 {
        self.since
    }

    /// A gate that lets the first correction through after `cooldown` observations.
    pub fn new(cooldown: u32) -> (g: Self)
        ensures
            g.ticks() == cooldown,
            g.elapsed() == 0,
    {
        DriftCooldown { cooldown, since: 0 }
    }

    /// Decides the correction for one observation of where the smoothed level
    /// stands: `above` the band's upper edge, `below` its lower edge.
    pub fn decide(&mut self, above: bool, below: bool) -> (a: DriftAction)
        ensures
            (a, final(self).elapsed()) == drift_step(old(self).ticks(), old(self).elapsed(), above, below),
            final(self).ticks() == old(self).ticks(),
    {
        if self.since < self.cooldown {
            self.since = self.since + 1;
            return DriftAction::Hold;
        }
        if above {
            self.since = 0;
            DriftAction::DropChunk
        } else if below {
            self.since = 0;
            DriftAction::InsertSilence
        } else {
            DriftAction::Hold
        }
    }
}

/// Samples the playback side still owes a correction: to skip from the next
/// converted audio, and of silence to insert after it.
pub struct DriftLedger {
    skip_pending: usize,
    insert_pending: usize,
}

/// `x + y`, saturating at `usize::MAX`.
pub open spec fn sat_add(x: usize, y: usize) -> usize {
    if x + y <= usize::MAX {
        (x + y) as usize
    } else {
        usize::MAX
    }
}

impl DriftLedger {
    /// Samples still to skip.
    pub closed spec fn to_skip(&self) -> usize {
        self.skip_pending
    }

    /// Samples of silence still to insert.
    pub closed spec fn to_insert(&self) -> usize {
        self.insert_pending
    }

    /// Nothing owed.
    pub fn new() -> (l: Self)
        ensures
            l.to_skip() == 0,
            l.to_insert() == 0,
    {
        DriftLedger { skip_pending: 0, insert_pending: 0 }
    }

    /// Books the correction `action` asks for, `chunk` samples of it.
    pub fn request(&mut self, action: DriftAction, chunk: usize)
        ensures
            final(self).to_skip() == if action == DriftAction::DropChunk {
                sat_add(old(self).to_skip(), chunk)
            } else {
                old(self).to_skip()
            },
            final(self).to_insert() == if action == DriftAction::InsertSilence {
                sat_add(old(self).to_insert(), chunk)
            } else {
                old(self).to_insert()
            },
    {
        match action {
            DriftAction::DropChunk => {
                self.skip_pending = self.skip_pending.saturating_add(chunk);
            },
            DriftAction::InsertSilence => {
                self.insert_pending = self.insert_pending.saturating_add(chunk);
            },
            DriftAction::Hold => {},
        }
    }

    /// Settles what can be settled against one converted packet of
    /// `available` samples of `channels`-channel audio: how many leading
    /// samples to skip (as many as owed and available, in whole frames) and
    /// how many samples of silence to append after it (as many as owed, up
    /// to one packet's worth but at least a frame, in whole frames).
    pub fn settle(&mut self, available: usize, channels: usize) -> (r: (usize, usize))
        requires
            channels >= 1,
        ensures
            r.0 == crate::audio::engine::pacing::round_down_pick(old(self).to_skip() as int, available as int, channels as int),
            r.1 == crate::audio::engine::pacing::round_down_pick(
                old(self).to_insert() as int,
                if available >= channels { available as int } else { channels as int },
                channels as int,
            ),
            r.0 <= available,
            r.0 % channels == 0,
            r.1 % channels == 0,
            final(self).to_skip() == old(self).to_skip() - r.0,
            final(self).to_insert() == old(self).to_insert() - r.1,
    {
        let skip = drift_skip(self.skip_pending, available, channels);
        self.skip_pending = self.skip_pending - skip;
        let insert = drift_insert(self.insert_pending, available, channels);
        self.insert_pending = self.insert_pending - insert;
        (skip, insert)
    }
}

/// Corrections are never back to back: after a correction (or at the start)
/// the next `cooldown` observations produce no correction, whatever they are.
pub proof fn lemma_cooldown_spaces_corrections(cooldown: u32, since: u32, obs: Seq<(bool, bool)>)
    requires
        since + obs.len() <= cooldown,
    ensures
        drift_run(cooldown, since, obs).len() == obs.len(),
        forall|i: int| 0 <= i < obs.len() ==> #[trigger] drift_run(cooldown, since, obs)[i] == DriftAction::Hold,
    decreases obs.len(),
{
    if obs.len() > 0 {
        let next = (since + 1) as u32;
        lemma_cooldown_spaces_corrections(cooldown, next, obs.drop_first());
        let rest = drift_run(cooldown, next, obs.drop_first());
        assert forall|i: int| 0 <= i < obs.len() implies #[trigger] drift_run(cooldown, since, obs)[i]
            == DriftAction::Hold by {
            if i > 0 {
                assert(drift_run(cooldown, since, obs)[i] == rest[i - 1]);
            }
        }
    }
}

} // verus!
