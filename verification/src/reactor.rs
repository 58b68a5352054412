//! The reactor: a fixed pool of compositor slots, the live animation
//! parameters, and the trigger counter. A trigger is admitted against
//! the concurrency cap, may evict the oldest reaction, and claims the
//! first idle slot; its timer later releases the slot unless another
//! trigger has taken it over.

use vstd::prelude::*;

use crate::animation::{admission_spec, is_oldest, oldest_active, Admission, AnimationStore};
use crate::protocol::{AnimationConfig, DropPolicy};
use crate::slots::{activated, advanced, idle_view, released, seeded, FramePush, SlotState, SlotView};
use crate::reactions::all_slots_busy;
use crate::text::decimal;

verus! {

/// What became of an admitted trigger.
#[derive(Debug, Clone, Copy, PartialEq, Eq, Structural)]
pub enum Activation {
    /// The cap was reached and the policy drops new triggers.
    Dropped,
    /// The trigger claimed `slot`, after releasing `evicted` if the cap
    /// made the oldest reaction give way.
    Claimed { slot: usize, evicted: Option<usize> },
}

pub open spec fn busy_count(s: Seq<SlotView>) -> nat
    decreases s.len(),
{
    if s.len() == 0 {
        0
    } else {
        busy_count(s.drop_last()) + if s.last().busy {
            1nat
        } else {
            0
        }
    }
}

/// Activation times of the busy slots, `None` for idle ones.
pub open spec fn started_seq(s: Seq<SlotView>) -> Seq<Option<u64>> {
    Seq::new(s.len(), |i: int| if s[i].busy { s[i].started_at } else { None })
}

pub open spec fn is_first_idle(s: Seq<SlotView>, k: int) -> bool {
    &&& 0 <= k < s.len()
    &&& !s[k].busy
    &&& forall|j: int| 0 <= j < k ==> (#[trigger] s[j]).busy
}

pub open spec fn all_busy(s: Seq<SlotView>) -> bool {
    forall|j: int| 0 <= j < s.len() ==> (#[trigger] s[j]).busy
}

pub open spec fn cap(max_concurrent: u32, slot_count: nat) -> nat {
    if max_concurrent <= slot_count {
        max_concurrent as nat
    } else {
        slot_count
    }
}

/// One trigger with a resolved source of `frame_count` frames, as a
/// relation between the slots before (`pre`), the outcome, and the slots
/// after (`post`). `Err` is a trigger that found no idle slot.
pub open spec fn activation_step(
    pre: Seq<SlotView>,
    max_concurrent: u32,
    policy: DropPolicy,
    overlay: bool,
    frame_count: nat,
    id: u64,
    now: u64,
    outcome: Result<Activation, ()>,
    post: Seq<SlotView>,
) -> bool {
    let adm = admission_spec(busy_count(pre), cap(max_concurrent, pre.len()), policy, overlay);
    match outcome {
        Ok(Activation::Dropped) => adm == Admission::DropNew && post == pre,
        Ok(Activation::Claimed { slot, evicted }) => {
            &&& adm != Admission::DropNew
            &&& match evicted {
                // The oldest reaction gives way and its slot is re-armed
                // for the new trigger.
                Some(v) => {
                    &&& adm == Admission::EvictOldest
                    &&& is_oldest(started_seq(pre), v as int)
                    &&& slot == v
                    &&& post == pre.update(
                        v as int,
                        activated(released(pre[v as int]), frame_count, id, now),
                    )
                },
                // Nothing gives way: the first idle slot is claimed.
                None => {
                    &&& (adm == Admission::EvictOldest ==> forall|j: int|
                        0 <= j < pre.len() ==> !(#[trigger] pre[j]).busy)
                    &&& is_first_idle(pre, slot as int)
                    &&& post == pre.update(slot as int, activated(pre[slot as int], frame_count, id, now))
                },
            }
        },
        Err(()) => {
            &&& adm != Admission::DropNew
            &&& all_busy(pre)
            &&& (adm == Admission::EvictOldest ==> pre.len() == 0)
            &&& post == pre
        },
    }
}

proof fn lemma_busy_count_update(s: Seq<SlotView>, k: int, v: SlotView)
    requires
        0 <= k < s.len(),
    ensures
        busy_count(s.update(k, v)) == busy_count(s) - (if s[k].busy {
            1int
        } else {
            0
        }) + (if v.busy {
            1int
        } else {
            0
        }),
    decreases s.len(),
{
    let t = s.update(k, v);
    if k == s.len() - 1 {
        assert(t.drop_last() =~= s.drop_last());
    } else {
        lemma_busy_count_update(s.drop_last(), k, v);
        assert(t.drop_last() =~= s.drop_last().update(k, v));
    }
}

proof fn lemma_busy_count_none(s: Seq<SlotView>)
    requires
        forall|j: int| 0 <= j < s.len() ==> !(#[trigger] s[j]).busy,
    ensures
        busy_count(s) == 0,
    decreases s.len(),
{
    if s.len() > 0 {
        assert(!s[s.len() - 1].busy);
        lemma_busy_count_none(s.drop_last());
    }
}

/// Cascade triggers keep the number of reactions on screen within the
/// cap: after one, at most the larger of the cap and the number before
/// are busy. Any trigger, an overlay too, adds at most one, and the pool
/// keeps its size. (With a cap of zero under the drop-oldest policy a
/// trigger that finds nothing to evict still shows, so the cap is taken
/// to be positive.)
pub proof fn law_activation_respects_cap(
    pre: Seq<SlotView>,
    max_concurrent: u32,
    policy: DropPolicy,
    overlay: bool,
    frame_count: nat,
    id: u64,
    now: u64,
    outcome: Result<Activation, ()>,
    post: Seq<SlotView>,
)
    requires
        max_concurrent > 0,
        activation_step(pre, max_concurrent, policy, overlay, frame_count, id, now, outcome, post),
    ensures
        post.len() == pre.len(),
        busy_count(post) <= busy_count(pre) + 1,
        !overlay ==> busy_count(post) <= busy_count(pre) || busy_count(post) <= cap(
            max_concurrent,
            pre.len(),
        ),
{
    match outcome {
        Ok(Activation::Claimed { slot, evicted }) => {
            match evicted {
                Some(v) => {
                    assert(started_seq(pre)[v as int] is Some);
                    lemma_busy_count_update(
                        pre,
                        v as int,
                        activated(released(pre[v as int]), frame_count, id, now),
                    );
                },
                None => {
                    if admission_spec(busy_count(pre), cap(max_concurrent, pre.len()), policy, overlay)
                        == Admission::EvictOldest {
                        lemma_busy_count_none(pre);
                    }
                    lemma_busy_count_update(
                        pre,
                        slot as int,
                        activated(pre[slot as int], frame_count, id, now),
                    );
                },
            }
        },
        _ => {},
    }
}

/// A claimed slot runs the new trigger from its first frame, started
/// now; when the oldest reaction gave way, its slot is the one re-armed
/// and the number of busy slots stays the same; every other slot is left
/// as it was.
pub proof fn law_claim_arms_only_the_claimed_slot(
    pre: Seq<SlotView>,
    max_concurrent: u32,
    policy: DropPolicy,
    overlay: bool,
    frame_count: nat,
    id: u64,
    now: u64,
    slot: usize,
    evicted: Option<usize>,
    post: Seq<SlotView>,
)
    requires
        activation_step(
            pre,
            max_concurrent,
            policy,
            overlay,
            frame_count,
            id,
            now,
            Ok(Activation::Claimed { slot, evicted }),
            post,
        ),
    ensures
        post[slot as int].busy,
        post[slot as int].armed_id == Some(id),
        post[slot as int].started_at == Some(now),
        post[slot as int].idx == 0,
        evicted matches Some(v) ==> v == slot && pre[v as int].busy,
        evicted is Some ==> busy_count(post) == busy_count(pre),
        forall|j: int| 0 <= j < pre.len() && j != slot ==> post[j] == pre[j],
{
    if let Some(v) = evicted {
        lemma_busy_count_update(pre, v as int, activated(released(pre[v as int]), frame_count, id, now));
    }
    if let Some(v) = evicted {
        assert(started_seq(pre)[v as int] is Some);
    }
}

/// The reactor's state as the rest of the library sees it.
pub struct ReactorView {
    pub slots: Seq<SlotView>,
    /// Id of the next trigger.
    pub counter: u64,
}

pub struct Reactor {
    slots: Vec<SlotState>,
    config: AnimationStore,
    counter: u64,
}

impl View for Reactor {
    type V = ReactorView;

    closed spec fn view(&self) -> ReactorView {
        ReactorView {
            slots: Seq::new(self.slots@.len(), |i: int| self.slots@[i]@),
            counter: self.counter,
        }
    }
}

pub open spec fn not_found_message(emoji_id: Seq<char>) -> Seq<char> {
    "emoji '"@ + emoji_id + "' not found"@
}

pub open spec fn all_busy_message(slot_count: nat) -> Seq<char> {
    "all "@ + decimal(slot_count) + " slots busy"@
}

/// The trigger after `id`; the counter wraps around.
pub open spec fn next_counter(id: u64) -> u64 {
    if id == u64::MAX {
        0
    } else {
        (id + 1) as u64
    }
}

impl Reactor {
    /// The animation parameters in force.
    pub closed spec fn config(&self) -> AnimationConfig {
        self.config.current()
    }

    /// `slot_count` idle slots, the first trigger numbered 0.
    pub fn new(slot_count: usize, config: AnimationConfig) -> (res: Self)
        ensures
            res@.slots.len() == slot_count,
            forall|i: int| 0 <= i < slot_count ==> (#[trigger] res@.slots[i]) == idle_view(),
            res@.counter == 0,
            res.config() == config,
    {
        let mut slots: Vec<SlotState> = Vec::new();
        let mut i: usize = 0;
        while i < slot_count
            invariant
                i <= slot_count,
                slots@.len() == i,
                forall|j: int| 0 <= j < i ==> (#[trigger] slots@[j])@ == idle_view(),
            decreases slot_count - i,
        {
            slots.push(SlotState::new());
            i = i + 1;
        }
        Reactor { slots, config: AnimationStore::new(config), counter: 0 }
    }

    pub fn slot_count(&self) -> (res: usize)
        ensures
            res == self@.slots.len(),
    {
        self.slots.len()
    }

    /// An independent copy of the animation parameters in force.
    pub fn config_snapshot(&self) -> (res: AnimationConfig)
        ensures
            res.same_as(self.config()),
    {
        self.config.snapshot()
    }

    /// Replaces the animation parameters for later triggers.
    pub fn set_config(&mut self, cfg: AnimationConfig)
        ensures
            final(self).config() == cfg,
            final(self)@ == old(self)@,
    {
        self.config.replace(cfg);
    }

    /// Number of busy slots.
    pub fn active_count(&self) -> (res: usize)
        ensures
            res == busy_count(self@.slots),
    {
        let mut n: usize = 0;
        let mut i: usize = 0;
        while i < self.slots.len()
            invariant
                i <= self.slots@.len(),
                n == busy_count(self@.slots.take(i as int)),
                n <= i,
            decreases self.slots@.len() - i,
        {
            assert(self@.slots.take(i + 1).drop_last() =~= self@.slots.take(i as int));
            if self.slots[i].is_busy() {
                n = n + 1;
            }
            i = i + 1;
        }
        assert(self@.slots.take(self.slots@.len() as int) =~= self@.slots);
        n
    }

    /// Activation times of the busy slots.
    fn started_times(&self) -> (res: Vec<Option<u64>>)
        ensures
            res@ == started_seq(self@.slots),
            forall|j: int| 0 <= j < res@.len() ==> ((#[trigger] res@[j]) is Some <==> self@.slots[j].busy),
    {
        let mut out: Vec<Option<u64>> = Vec::new();
        let mut i: usize = 0;
        while i < self.slots.len()
            invariant
                i <= self.slots@.len(),
                out@ =~= started_seq(self@.slots).take(i as int),
                forall|j: int| 0 <= j < i ==> ((#[trigger] out@[j]) is Some <==> self@.slots[j].busy),
            decreases self.slots@.len() - i,
        {
            out.push(self.slots[i].started_at());
            i = i + 1;
        }
        assert(started_seq(self@.slots).take(self.slots@.len() as int) =~= started_seq(self@.slots));
        out
    }

    /// Claims the first idle slot for trigger `id`, `None` if every slot
    /// is busy.
    fn claim_first_idle(&mut self, frame_count: usize, id: u64, now: u64) -> (res: Option<usize>)
        requires
            frame_count >= 1,
        ensures
            final(self).config() == old(self).config(),
            final(self)@.counter == old(self)@.counter,
            match res {
                Some(k) => is_first_idle(old(self)@.slots, k as int) && final(self)@.slots
                    == old(self)@.slots.update(
                    k as int,
                    activated(old(self)@.slots[k as int], frame_count as nat, id, now),
                ),
                None => all_busy(old(self)@.slots) && final(self)@.slots == old(self)@.slots,
            },
    {
        let n = self.slots.len();
        let mut i: usize = 0;
        while i < n
            invariant
                n == self.slots@.len(),
                i <= n,
                frame_count >= 1,
                self@ == old(self)@,
                self.config() == old(self).config(),
                forall|j: int| 0 <= j < i ==> (#[trigger] self@.slots[j]).busy,
            decreases n - i,
        {
            let claimed = self.slots[i].try_activate(frame_count, id, now);
            if claimed {
                assert(self@.slots =~= old(self)@.slots.update(
                    i as int,
                    activated(old(self)@.slots[i as int], frame_count as nat, id, now),
                ));
                return Some(i);
            }
            assert(self@.slots =~= old(self)@.slots);
            i = i + 1;
        }
        None
    }

    /// Releases slot `k`, returning the trigger it was armed for.
    fn release(&mut self, k: usize) -> (prev: Option<u64>)
        requires
            k < old(self)@.slots.len(),
        ensures
            prev == old(self)@.slots[k as int].armed_id,
            final(self)@.slots == old(self)@.slots.update(k as int, released(old(self)@.slots[k as int])),
            final(self)@.counter == old(self)@.counter,
            final(self).config() == old(self).config(),
    {
        let prev = self.slots[k].deactivate();
        assert(self@.slots =~= old(self)@.slots.update(k as int, released(old(self)@.slots[k as int])));
        prev
    }

    /// Handles one trigger of `emoji_id`. `frame_count` is the length of
    /// the resolved frame source, `None` when the emoji has no asset;
    /// `overlay` marks an always-on overlay, which skips the cap. Every
    /// trigger takes the next id, also one that fails. A cascade trigger
    /// that finds the cap reached is dropped, or, under the drop-oldest
    /// policy, releases the oldest reaction and takes over its slot;
    /// otherwise the first idle slot is claimed.
    pub fn activate(&mut self, emoji_id: &str, frame_count: Option<usize>, overlay: bool, now: u64) -> (res: (u64, Result<Activation, String>))
        requires
            frame_count matches Some(n) ==> n >= 1,
        ensures
            res.0 == old(self)@.counter,
            final(self)@.counter == next_counter(old(self)@.counter),
            final(self).config() == old(self).config(),
            final(self)@.slots.len() == old(self)@.slots.len(),
            match frame_count {
                None => res.1 matches Err(m) && m@ == not_found_message(emoji_id@) && final(self)@.slots
                    == old(self)@.slots,
                Some(n) => {
                    &&& activation_step(
                        old(self)@.slots,
                        old(self).config().max_concurrent,
                        old(self).config().drop_policy,
                        overlay,
                        n as nat,
                        old(self)@.counter,
                        now,
                        match res.1 {
                            Ok(a) => Ok(a),
                            Err(_) => Err(()),
                        },
                        final(self)@.slots,
                    )
                    &&& (res.1 matches Err(m) ==> m@ == all_busy_message(old(self)@.slots.len()))
                },
            },
    {
        let id = self.counter;
        self.counter = if self.counter == u64::MAX {
            0
        } else {
            self.counter + 1
        };
        let fc = match frame_count {
            None => {
                let mut m = "emoji '".to_owned();
                m.append(emoji_id);
                m.append("' not found");
                assert(self@.slots =~= old(self)@.slots);
                assert(m@ == not_found_message(emoji_id@));
                return (id, Err(m));
            },
            Some(n) => n,
        };
        let ghost pre = self@.slots;
        let active = self.active_count();
        let admission = crate::animation::admission(self.config.get(), active, self.slots.len(), overlay);
        match admission {
            Admission::DropNew => {
                return (id, Ok(Activation::Dropped));
            },
            Admission::EvictOldest => {
                let started = self.started_times();
                match oldest_active(&started) {
                    Some(v) => {
                        assert(started@[v as int] is Some);
                        assert(started@.len() == pre.len());
                        self.release(v);
                        assert(self@.slots.len() == pre.len());
                        assert(self@.slots.len() == self.slots@.len());
                        assert(v < self.slots@.len());
                        assert(self.slots@[v as int]@ == self@.slots[v as int]);
                        assert(!self.slots@[v as int]@.busy);
                        let ghost mid = self@.slots;
                        let claimed = self.slots[v].try_activate(fc, id, now);
                        assert(claimed);
                        assert(self@.slots =~= mid.update(
                            v as int,
                            activated(mid[v as int], fc as nat, id, now),
                        ));
                        assert(self@.slots =~= pre.update(
                            v as int,
                            activated(released(pre[v as int]), fc as nat, id, now),
                        ));
                        return (id, Ok(Activation::Claimed { slot: v, evicted: Some(v) }));
                    },
                    None => {
                        assert forall|j: int| 0 <= j < pre.len() implies !(#[trigger] pre[j]).busy by {
                            assert(started@[j] is None);
                        }
                    },
                }
            },
            Admission::Proceed => {},
        }
        let claimed = self.claim_first_idle(fc, id, now);
        match claimed {
            Some(slot) => (id, Ok(Activation::Claimed { slot, evicted: None })),
            None => (id, Err(all_slots_busy(self.slots.len()))),
        }
    }

    /// The frame slot `k`'s pump pushes next, `None` while the slot is
    /// idle and the pump should park.
    pub fn next_frame(&self, k: usize) -> (res: Option<usize>)
        requires
            k < self@.slots.len(),
        ensures
            res == (if self@.slots[k as int].armed_id is Some {
                Some(self@.slots[k as int].idx as usize)
            } else {
                None::<usize>
            }),
            res matches Some(i) ==> i < self@.slots[k as int].frame_count,
    {
        self.slots[k].next_frame()
    }

    /// Timestamp of the next frame slot `k` pushes.
    pub fn next_pts(&self, k: usize) -> (res: u64)
        requires
            k < self@.slots.len(),
        ensures
            res == self@.slots[k as int].next_pts,
    {
        self.slots[k].next_pts()
    }

    /// Accounts for slot `k` pushing its next frame, which lasts
    /// `duration` nanoseconds.
    pub fn advance(&mut self, k: usize, duration: u64) -> (res: FramePush)
        requires
            k < old(self)@.slots.len(),
            old(self)@.slots[k as int].armed_id is Some,
            old(self)@.slots[k as int].next_pts + duration <= u64::MAX,
        ensures
            res.frame_idx == old(self)@.slots[k as int].idx,
            res.pts == old(self)@.slots[k as int].next_pts,
            res.first_push_id == (if old(self)@.slots[k as int].first_push_pending {
                old(self)@.slots[k as int].armed_id
            } else {
                None
            }),
            final(self)@.slots == old(self)@.slots.update(
                k as int,
                advanced(old(self)@.slots[k as int], duration),
            ),
            final(self)@.counter == old(self)@.counter,
            final(self).config() == old(self).config(),
    {
        let r = self.slots[k].advance(duration);
        assert(self@.slots =~= old(self)@.slots.update(
            k as int,
            advanced(old(self)@.slots[k as int], duration),
        ));
        r
    }

    /// Accounts for slot `k`'s seed push of `duration` nanoseconds.
    pub fn push_seed(&mut self, k: usize, duration: u64) -> (pts: u64)
        requires
            k < old(self)@.slots.len(),
            old(self)@.slots[k as int].next_pts + duration <= u64::MAX,
        ensures
            pts == old(self)@.slots[k as int].next_pts,
            final(self)@.slots == old(self)@.slots.update(
                k as int,
                seeded(old(self)@.slots[k as int], duration),
            ),
            final(self)@.counter == old(self)@.counter,
            final(self).config() == old(self).config(),
    {
        let r = self.slots[k].push_seed(duration);
        assert(self@.slots =~= old(self)@.slots.update(
            k as int,
            seeded(old(self)@.slots[k as int], duration),
        ));
        r
    }

    /// Whether slot `k` is claimed.
    pub fn is_busy(&self, k: usize) -> (res: bool)
        requires
            k < self@.slots.len(),
        ensures
            res == self@.slots[k as int].busy,
    {
        self.slots[k].is_busy()
    }

    /// The end of trigger `id`'s lifetime on `slot`: the slot is released
    /// if it is still armed for `id`, and left alone if it was released
    /// or another trigger took it over meanwhile.
    pub fn expire(&mut self, slot: usize, id: u64) -> (released_now: bool)
        requires
            slot < old(self)@.slots.len(),
        ensures
            released_now == (old(self)@.slots[slot as int].busy && old(self)@.slots[slot as int].armed_id
                == Some(id)),
            released_now ==> final(self)@.slots == old(self)@.slots.update(
                slot as int,
                released(old(self)@.slots[slot as int]),
            ),
            !released_now ==> final(self)@.slots == old(self)@.slots,
            final(self)@.counter == old(self)@.counter,
            final(self).config() == old(self).config(),
    {
        if self.slots[slot].is_active_for(id) {
            self.release(slot);
            true
        } else {
            false
        }
    }
}

} // verus!
