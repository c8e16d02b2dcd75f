//! De-jitter / reorder buffer keyed by sequence number.
//!
//! The source numbers audio frames 0,1,2,... The sink inserts them (possibly
//! out of order) and pulls them in order for playback. A frame still missing
//! once `lost_after` later frames have arrived is declared lost (a gap: the
//! caller plays silence). Frames older than the next expected one are dropped.

use std::collections::BTreeMap;
use vstd::prelude::*;

verus! {

broadcast use {vstd::std_specs::btree::group_btree_axioms, vstd::laws_cmp::group_laws_cmp};

/// What `JitterBuffer::pop` hands out.
#[derive(Debug, PartialEq, Eq)]
pub enum Pop {
    /// The next in-order frame's payload.
    Frame(Vec<u8>),
    /// The next frame is declared lost; play silence and advance.
    Gap,
    /// Not enough buffered yet; play silence but keep waiting.
    Starved,
}

/// Abstract state of a jitter buffer: the next sequence number to play, the
/// buffered frames by sequence number, and the loss threshold.
pub struct JitterModel {
    pub next_seq: u64,
    pub frames: Map<u64, Seq<u8>>,
    pub lost_after: nat,
}

impl JitterModel {
    /// Every buffered frame is still to be played, and the threshold is positive.
    pub open spec fn wf(self) -> bool {
        &&& self.frames.dom().finite()
        &&& forall|s: u64| #[trigger] self.frames.contains_key(s) ==> s >= self.next_seq
        &&& self.lost_after >= 1
    }

    /// The state after `push(seq, frame)`: a frame older than the next one to
    /// play is dropped, any other frame is stored (replacing a duplicate).
    pub open spec fn pushed(self, seq: u64, frame: Seq<u8>) -> JitterModel {
        if seq < self.next_seq {
            self
        } else {
            JitterModel { frames: self.frames.insert(seq, frame), ..self }
        }
    }

    /// Whether `pop` would declare the next frame lost: it is missing and at
    /// least `lost_after` later frames are buffered.
    pub open spec fn gap_due(self) -> bool {
        !self.frames.contains_key(self.next_seq) && self.frames.len() >= self.lost_after
    }

    /// Whether `pop` has nothing to hand out yet.
    pub open spec fn starved(self) -> bool {
        !self.frames.contains_key(self.next_seq) && self.frames.len() < self.lost_after
    }

    /// Whether `pop` can run without the next sequence number overflowing.
    pub open spec fn can_advance(self) -> bool {
        self.starved() || self.next_seq < u64::MAX
    }
}

/// Reorders frames by sequence number and declares missing ones lost.
pub struct JitterBuffer {
    next_seq: u64,
    buf: BTreeMap<u64, Vec<u8>>,
    lost_after: usize,
}

impl View for JitterBuffer {
    type V = JitterModel;

    closed spec fn view(&self) -> JitterModel {
        JitterModel {
            next_seq: self.next_seq,
            frames: self.buf@.map_values(|v: Vec<u8>| v@),
            lost_after: self.lost_after as nat,
        }
    }
}

impl JitterBuffer {
    /// Internal consistency: the stored map is finite and its keys are what the view says.
    pub closed spec fn wf(&self) -> bool {
        &&& self@.wf()
        &&& self.buf@.dom().finite()
    }

    proof fn lemma_view_len(&self)
        ensures
            self@.frames.dom() == self.buf@.dom(),
            self@.frames.len() == self.buf@.len(),
            forall|k: u64| #[trigger] self.buf@.contains_key(k) ==> self@.frames[k] == self.buf@[k]@,
    {
        assert(self@.frames.dom() =~= self.buf@.dom());
    }

    /// `lost_after` = how many later frames must be buffered before a missing
    /// next frame is treated as lost (at least 1). The stream starts at seq 0.
    pub fn new(lost_after: usize) -> (j: Self)
        ensures
            j.wf(),
            j@.next_seq == 0,
            j@.frames == Map::<u64, Seq<u8>>::empty(),
            j@.lost_after == if lost_after == 0 {
                1
            } else {
                lost_after
            },
    {
        let j = JitterBuffer {
            next_seq: 0,
            buf: BTreeMap::new(),
            lost_after: if lost_after > 1 {
                lost_after
            } else {
                1
            },
        };
        assert(j@.frames =~= Map::<u64, Seq<u8>>::empty());
        j
    }

    /// Stores `frame` under `seq`, unless it is older than the next frame to play.
    pub fn push(&mut self, seq: u64, frame: Vec<u8>)
        requires
            old(self).wf(),
        ensures
            final(self).wf(),
            final(self)@ == old(self)@.pushed(seq, frame@),
    {
        if seq < self.next_seq {
            return;
        }
        let ghost f = frame@;
        self.buf.insert(seq, frame);
        assert(self@.frames =~= old(self)@.frames.insert(seq, f));
    }

    /// Hands out the next frame in sequence order, a gap when the next frame
    /// is declared lost, or `Starved` when it is worth waiting longer.
    pub fn pop(&mut self) -> (r: Pop)
        requires
            old(self).wf(),
            old(self)@.can_advance(),
        ensures
            final(self).wf(),
            final(self)@.lost_after == old(self)@.lost_after,
            match r {
                Pop::Frame(f) => {
                    &&& old(self)@.frames.contains_key(old(self)@.next_seq)
                    &&& f@ == old(self)@.frames[old(self)@.next_seq]
                    &&& final(self)@.next_seq == old(self)@.next_seq + 1
                    &&& final(self)@.frames == old(self)@.frames.remove(old(self)@.next_seq)
                },
                Pop::Gap => {
                    &&& old(self)@.gap_due()
                    &&& final(self)@.next_seq == old(self)@.next_seq + 1
                    &&& final(self)@.frames == old(self)@.frames
                },
                Pop::Starved => {
                    &&& old(self)@.starved()
                    &&& final(self)@ == old(self)@
                },
            },
    {
        let ghost m = self@;
        proof {
            self.lemma_view_len();
        }
        let key = self.next_seq;
        match self.buf.remove(&key) {
            Some(frame) => {
                proof {
                    self.lemma_view_len();
                }
                self.next_seq = self.next_seq + 1;
                assert(self@.frames =~= m.frames.remove(key));
                assert(self@.wf());
                Pop::Frame(frame)
            },
            None => {
                assert(self.buf@ =~= old(self).buf@);
                proof {
                    self.lemma_view_len();
                }
                if self.buf.len() >= self.lost_after {
                    self.next_seq = self.next_seq + 1;
                    assert(self@.frames =~= m.frames);
                    Pop::Gap
                } else {
                    assert(self@.frames =~= m.frames);
                    Pop::Starved
                }
            },
        }
    }

    /// The sequence number of the next frame to play.
    pub fn next_seq(&self) -> (n: u64)
        ensures
            n == self@.next_seq,
    {
        self.next_seq
    }

    /// Number of frames currently buffered.
    pub fn buffered(&self) -> (n: usize)
        requires
            self.wf(),
        ensures
            n == self@.frames.len(),
    {
        proof {
            self.lemma_view_len();
        }
        self.buf.len()
    }
}

/// Frames leave the buffer strictly in sequence order: every `Frame` or `Gap`
/// accounts for exactly the next sequence number and moves past it, and no
/// buffered frame is ever behind the next sequence number.
pub proof fn lemma_jitter_delivers_in_order(m: JitterModel, seq: u64, frame: Seq<u8>)
    requires
        m.wf(),
    ensures
        m.pushed(seq, frame).wf(),
        seq < m.next_seq ==> m.pushed(seq, frame) == m,
        seq >= m.next_seq ==> m.pushed(seq, frame).frames[seq] == frame,
{
    if seq >= m.next_seq {
        assert(m.pushed(seq, frame).frames.dom() =~= m.frames.dom().insert(seq));
    }
}

} // verus!
