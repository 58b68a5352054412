//! The state of one pre-allocated compositor slot. A slot is idle
//! (showing its transparent seed frame) or armed for one trigger, whose
//! frames its pump pushes in a loop with monotonic timestamps until the
//! slot is released.

use vstd::prelude::*;

verus! {

/// What the slot is doing, as the rest of the library sees it.
pub struct SlotView {
    /// Number of frames in the current frame source (at least 1).
    pub frame_count: nat,
    /// Index of the next frame to push.
    pub idx: nat,
    /// Timestamp of the next frame to push, in nanoseconds.
    pub next_pts: nat,
    /// Trigger id of the armed frames; `None` while idle.
    pub armed_id: Option<u64>,
    /// Set between activation and the pump's first push of the new frames.
    pub first_push_pending: bool,
    /// Activation time of an armed slot.
    pub started_at: Option<u64>,
    /// Whether the slot is claimed.
    pub busy: bool,
}

/// One slot's state. While idle it holds the single transparent seed
/// frame.
pub struct SlotState {
    frame_count: usize,
    idx: usize,
    next_pts: u64,
    armed_id: Option<u64>,
    first_push_pending: bool,
    started_at: Option<u64>,
    busy: bool,
}

/// What the pump does with one frame.
#[derive(Debug, Clone, Copy, PartialEq, Eq, Structural)]
pub struct FramePush {
    /// Index of the frame to push.
    pub frame_idx: usize,
    /// Its presentation timestamp.
    pub pts: u64,
    /// The trigger id, on the first push after an activation.
    pub first_push_id: Option<u64>,
}

/// A slot that never pushed a frame: idle on its seed frame at time 0.
pub open spec fn idle_view() -> SlotView {
    SlotView {
        frame_count: 1,
        idx: 0,
        next_pts: 0,
        armed_id: None,
        first_push_pending: false,
        started_at: None,
        busy: false,
    }
}

/// The state after claiming an idle slot for trigger `id`.
pub open spec fn activated(v: SlotView, frame_count: nat, id: u64, now: u64) -> SlotView {
    SlotView {
        frame_count,
        idx: 0,
        next_pts: v.next_pts,
        armed_id: Some(id),
        first_push_pending: true,
        started_at: Some(now),
        busy: true,
    }
}

/// The state after releasing a slot: idle on its seed frame.
pub open spec fn released(v: SlotView) -> SlotView {
    SlotView {
        frame_count: 1,
        idx: 0,
        next_pts: v.next_pts,
        armed_id: None,
        first_push_pending: false,
        started_at: None,
        busy: false,
    }
}

/// The state after pushing one frame of `duration` nanoseconds.
pub open spec fn advanced(v: SlotView, duration: u64) -> SlotView {
    SlotView {
        idx: ((v.idx + 1) as nat % v.frame_count) as nat,
        next_pts: (v.next_pts + duration) as nat,
        first_push_pending: false,
        ..v
    }
}

/// The state after the seed push of `duration` nanoseconds.
pub open spec fn seeded(v: SlotView, duration: u64) -> SlotView {
    SlotView { next_pts: (v.next_pts + duration) as nat, ..v }
}

impl View for SlotState {
    type V = SlotView;

    closed spec fn view(&self) -> SlotView {
        SlotView {
            frame_count: self.frame_count as nat,
            idx: self.idx as nat,
            next_pts: self.next_pts as nat,
            armed_id: self.armed_id,
            first_push_pending: self.first_push_pending,
            started_at: self.started_at,
            busy: self.busy,
        }
    }
}

impl SlotState {
    #[verifier::type_invariant]
    spec fn well_formed(self) -> bool {
        &&& self.frame_count >= 1
        &&& self.idx < self.frame_count
        &&& self.busy <==> self.armed_id is Some
        &&& self.busy <==> self.started_at is Some
        &&& self.first_push_pending ==> self.busy
        &&& !self.busy ==> self.frame_count == 1
    }

    /// An idle slot before its first push.
    pub fn new() -> (res: Self)
        ensures
            res@ == idle_view(),
    {
        SlotState {
            frame_count: 1,
            idx: 0,
            next_pts: 0,
            armed_id: None,
            first_push_pending: false,
            started_at: None,
            busy: false,
        }
    }

    /// Claims the slot for trigger `id` if it is idle: its pump will push
    /// `frame_count` frames from the first one on. A busy slot is left
    /// alone and `false` returned. Timestamps carry on from where they
    /// were.
    pub fn try_activate(&mut self, frame_count: usize, id: u64, now: u64) -> (claimed: bool)
        requires
            frame_count >= 1,
        ensures
            claimed == !old(self)@.busy,
            !claimed ==> final(self)@ == old(self)@,
            claimed ==> final(self)@ == activated(old(self)@, frame_count as nat, id, now),
    {
        proof {
            use_type_invariant(&*self);
        }
        if self.busy {
            return false;
        }
        *self = SlotState {
            frame_count,
            idx: 0,
            next_pts: self.next_pts,
            armed_id: Some(id),
            first_push_pending: true,
            started_at: Some(now),
            busy: true,
        };
        true
    }

    /// `true` if the slot is still armed for trigger `id` (not released
    /// or taken over by another trigger).
    pub fn is_active_for(&self, id: u64) -> (res: bool)
        ensures
            res == (self@.busy && self@.armed_id == Some(id)),
    {
        self.busy && match self.armed_id {
            Some(a) => a == id,
            None => false,
        }
    }

    /// Timestamp of the next frame to push.
    pub fn next_pts(&self) -> (res: u64)
        ensures
            res == self@.next_pts,
    {
        self.next_pts
    }

    pub fn is_busy(&self) -> (res: bool)
        ensures
            res == self@.busy,
    {
        self.busy
    }

    /// Activation time of a busy slot, `None` if idle.
    pub fn started_at(&self) -> (res: Option<u64>)
        ensures
            res == (if self@.busy {
                self@.started_at
            } else {
                None
            }),
            res is Some <==> self@.busy,
    {
        proof {
            use_type_invariant(self);
        }
        if self.busy {
            self.started_at
        } else {
            None
        }
    }

    /// Releases the slot back to idle, returning the trigger it was
    /// armed for. Timestamps carry on from where they were.
    pub fn deactivate(&mut self) -> (prev: Option<u64>)
        ensures
            prev == old(self)@.armed_id,
            final(self)@ == released(old(self)@),
    {
        let prev = self.armed_id;
        *self = SlotState {
            frame_count: 1,
            idx: 0,
            next_pts: self.next_pts,
            armed_id: None,
            first_push_pending: false,
            started_at: None,
            busy: false,
        };
        prev
    }

    /// The frame the pump pushes next, or `None` when the slot is idle
    /// and the pump should park.
    pub fn next_frame(&self) -> (res: Option<usize>)
        ensures
            res == (if self@.armed_id is Some {
                Some(self@.idx as usize)
            } else {
                None::<usize>
            }),
            res matches Some(i) ==> i < self@.frame_count,
    {
        proof {
            use_type_invariant(self);
        }
        match self.armed_id {
            Some(_) => Some(self.idx),
            None => None,
        }
    }

    /// Accounts for pushing the next frame, which lasts `duration`
    /// nanoseconds: its timestamp is the current one, the timestamp moves
    /// on by `duration`, the frame index moves on cyclically, and the
    /// first push after an activation reports the trigger id.
    pub fn advance(&mut self, duration: u64) -> (res: FramePush)
        requires
            old(self)@.armed_id is Some,
            old(self)@.next_pts + duration <= u64::MAX,
        ensures
            res.frame_idx == old(self)@.idx,
            res.pts == old(self)@.next_pts,
            res.first_push_id == (if old(self)@.first_push_pending {
                old(self)@.armed_id
            } else {
                None
            }),
            final(self)@ == advanced(old(self)@, duration),
    {
        proof {
            use_type_invariant(&*self);
        }
        let frame_idx = self.idx;
        let pts = self.next_pts;
        let first_push_id = if self.first_push_pending {
            self.armed_id
        } else {
            None
        };
        *self = SlotState {
            frame_count: self.frame_count,
            idx: (self.idx + 1) % self.frame_count,
            next_pts: self.next_pts + duration,
            armed_id: self.armed_id,
            first_push_pending: false,
            started_at: self.started_at,
            busy: self.busy,
        };
        FramePush { frame_idx, pts, first_push_id }
    }

    /// Accounts for the seed push of frame 0 that negotiates caps: its
    /// timestamp is the current one, which moves on by `duration`.
    pub fn push_seed(&mut self, duration: u64) -> (pts: u64)
        requires
            old(self)@.next_pts + duration <= u64::MAX,
        ensures
            pts == old(self)@.next_pts,
            final(self)@ == seeded(old(self)@, duration),
    {
        proof {
            use_type_invariant(&*self);
        }
        let pts = self.next_pts;
        *self = SlotState {
            frame_count: self.frame_count,
            idx: self.idx,
            next_pts: self.next_pts + duration,
            armed_id: self.armed_id,
            first_push_pending: self.first_push_pending,
            started_at: self.started_at,
            busy: self.busy,
        };
        pts
    }
}

/// Releasing a slot twice is the same as releasing it once, and the
/// second release reports no trigger.
pub proof fn law_release_idempotent(v: SlotView)
    ensures
        released(released(v)) == released(v),
        released(v).armed_id is None,
{
}

/// No slot operation moves the next timestamp backwards.
pub proof fn law_timestamps_never_regress(v: SlotView, frame_count: nat, id: u64, now: u64, duration: u64)
    ensures
        activated(v, frame_count, id, now).next_pts == v.next_pts,
        released(v).next_pts == v.next_pts,
        advanced(v, duration).next_pts >= v.next_pts,
        seeded(v, duration).next_pts >= v.next_pts,
{
}

/// A slot claimed for `id` is active for `id` and for no other trigger;
/// once released, or claimed by a later trigger, it is no longer active
/// for `id`.
pub proof fn law_active_only_for_claimant(v: SlotView, frame_count: nat, id: u64, other: u64, now: u64)
    requires
        other != id,
    ensures
        activated(v, frame_count, id, now).busy && activated(v, frame_count, id, now).armed_id
            == Some(id),
        activated(v, frame_count, id, now).armed_id != Some(other),
        !(released(activated(v, frame_count, id, now)).armed_id == Some(id)),
        activated(released(activated(v, frame_count, id, now)), frame_count, other, now).armed_id
            != Some(id),
{
}

} // verus!
