//! The reactor's admission rules: how many reactions may be on screen,
//! what happens to a trigger when that many are, and which reaction
//! gives way.

use vstd::prelude::*;

use crate::protocol::{AnimationConfig, DropPolicy};

verus! {

/// The daemon's live animation parameters. The reactor takes a snapshot
/// at trigger time, so a later `replace` never changes a reaction that
/// is already on screen.
pub struct AnimationStore {
    config: AnimationConfig,
}

impl AnimationStore {
    /// The parameters currently in force.
    pub closed spec fn current(&self) -> AnimationConfig {
        self.config
    }

    pub fn new(initial: AnimationConfig) -> (res: Self)
        ensures
            res.current() == initial,
    {
        AnimationStore { config: initial }
    }

    /// The parameters in force.
    pub fn get(&self) -> (res: &AnimationConfig)
        ensures
            *res == self.current(),
    {
        &self.config
    }

    /// An independent copy of the parameters in force.
    pub fn snapshot(&self) -> (res: AnimationConfig)
        ensures
            res.same_as(self.current()),
    {
        self.config.clone()
    }

    /// Replaces the parameters for later triggers.
    pub fn replace(&mut self, cfg: AnimationConfig)
        ensures
            final(self).current() == cfg,
    {
        self.config = cfg;
    }
}

/// Where one reaction starts and ends on the canvas, in pixels.
#[derive(Debug, Clone, Copy, PartialEq, Eq, Structural)]
pub struct Placement {
    pub start_x: i32,
    pub start_y: i32,
    pub end_x: i32,
    pub end_y: i32,
}

pub open spec fn clamp_int(v: int, lo: int, hi: int) -> int {
    if v < lo {
        lo
    } else if v > hi {
        hi
    } else {
        v
    }
}

/// How far a `source`-wide image can move inside a `canvas`-wide one.
pub open spec fn room(canvas: int, source: int) -> int {
    if canvas - source > 0 {
        canvas - source
    } else {
        0
    }
}

pub open spec fn fits_i32(v: int) -> bool {
    i32::MIN <= v <= i32::MAX
}

pub open spec fn start_x_spec(canvas: (i32, i32), source: (i32, i32), anchor_x: i32, jitter: i32) -> int {
    clamp_int(anchor_x - source.0 / 2 + jitter, 0, room(canvas.0 as int, source.0 as int))
}

pub open spec fn start_y_spec(canvas: (i32, i32), source: (i32, i32), offset: i32) -> int {
    clamp_int(canvas.1 - source.1 - offset, 0, room(canvas.1 as int, source.1 as int))
}

/// The arithmetic of one placement stays within `i32`.
pub open spec fn placement_fits(
    canvas: (i32, i32),
    source: (i32, i32),
    anchor_x: i32,
    jitter: i32,
    offset: i32,
    dx: i32,
    dy: i32,
) -> bool {
    &&& fits_i32(anchor_x - source.0 / 2)
    &&& fits_i32(anchor_x - source.0 / 2 + jitter)
    &&& fits_i32(canvas.0 - source.0)
    &&& fits_i32(canvas.1 - source.1)
    &&& fits_i32(canvas.1 - source.1 - offset)
    &&& fits_i32(start_x_spec(canvas, source, anchor_x, jitter) + dx)
    &&& fits_i32(start_y_spec(canvas, source, offset) + dy)
}

fn in_i32(v: i64) -> (res: bool)
    ensures
        res == fits_i32(v as int),
{
    -2147483648i64 <= v && v <= 2147483647i64
}

fn clamp_i64(v: i64, hi: i64) -> (res: i64)
    requires
        hi >= 0,
    ensures
        res == clamp_int(v as int, 0, hi as int),
{
    if v < 0 {
        0
    } else if v > hi {
        hi
    } else {
        v
    }
}

/// Whether the arithmetic of a placement stays within `i32`.
pub fn placement_in_range(
    canvas: (i32, i32),
    source: (i32, i32),
    anchor_x: i32,
    jitter: i32,
    offset: i32,
    dx: i32,
    dy: i32,
) -> (res: bool)
    requires
        source.0 >= 0,
    ensures
        res == placement_fits(canvas, source, anchor_x, jitter, offset, dx, dy),
{
    let half: i64 = (source.0 / 2) as i64;
    let a: i64 = anchor_x as i64 - half;
    let x0: i64 = a + jitter as i64;
    let w: i64 = canvas.0 as i64 - source.0 as i64;
    let h: i64 = canvas.1 as i64 - source.1 as i64;
    let y0: i64 = h - offset as i64;
    let room_x: i64 = if w > 0 {
        w
    } else {
        0
    };
    let room_y: i64 = if h > 0 {
        h
    } else {
        0
    };
    let sx = clamp_i64(x0, room_x);
    let sy = clamp_i64(y0, room_y);
    in_i32(a) && in_i32(x0) && in_i32(w) && in_i32(h) && in_i32(y0) && in_i32(sx + dx as i64)
        && in_i32(sy + dy as i64)
}

/// Lays out one reaction of size `source` on a `canvas`: horizontally
/// centred on `anchor_x`, moved by `jitter`, kept inside the canvas;
/// vertically `offset` pixels above the bottom edge, kept inside the
/// canvas; it travels by `(dx, dy)`, its end kept inside the canvas
/// horizontally only, since the compositor clips what leaves at the top.
pub fn place(
    canvas: (i32, i32),
    source: (i32, i32),
    anchor_x: i32,
    jitter: i32,
    offset: i32,
    dx: i32,
    dy: i32,
) -> (res: Placement)
    requires
        source.0 >= 0,
        source.1 >= 0,
        placement_fits(canvas, source, anchor_x, jitter, offset, dx, dy),
    ensures
        res.start_x == start_x_spec(canvas, source, anchor_x, jitter),
        res.start_y == start_y_spec(canvas, source, offset),
        res.end_x == clamp_int(res.start_x + dx, 0, room(canvas.0 as int, source.0 as int)),
        res.end_y == res.start_y + dy,
{
    let half: i32 = source.0 / 2;
    let max_x: i32 = if canvas.0 - source.0 > 0 {
        canvas.0 - source.0
    } else {
        0
    };
    let max_y: i32 = if canvas.1 - source.1 > 0 {
        canvas.1 - source.1
    } else {
        0
    };
    let x0: i32 = anchor_x - half + jitter;
    let start_x: i32 = if x0 < 0 {
        0
    } else if x0 > max_x {
        max_x
    } else {
        x0
    };
    let y0: i32 = canvas.1 - source.1 - offset;
    let start_y: i32 = if y0 < 0 {
        0
    } else if y0 > max_y {
        max_y
    } else {
        y0
    };
    let x1: i32 = start_x + dx;
    let end_x: i32 = if x1 < 0 {
        0
    } else if x1 > max_x {
        max_x
    } else {
        x1
    };
    Placement { start_x, start_y, end_x, end_y: start_y + dy }
}

/// A reaction that fits on the canvas starts, and ends horizontally,
/// entirely inside it, whatever the anchor, jitter and travel.
pub proof fn law_placement_inside_canvas(
    canvas: (i32, i32),
    source: (i32, i32),
    anchor_x: i32,
    jitter: i32,
    offset: i32,
    dx: i32,
)
    requires
        0 <= source.0 <= canvas.0,
        0 <= source.1 <= canvas.1,
    ensures
        0 <= start_x_spec(canvas, source, anchor_x, jitter),
        start_x_spec(canvas, source, anchor_x, jitter) + source.0 <= canvas.0,
        0 <= start_y_spec(canvas, source, offset),
        start_y_spec(canvas, source, offset) + source.1 <= canvas.1,
        0 <= clamp_int(start_x_spec(canvas, source, anchor_x, jitter) + dx, 0, room(canvas.0 as int, source.0 as int)),
        clamp_int(start_x_spec(canvas, source, anchor_x, jitter) + dx, 0, room(canvas.0 as int, source.0 as int)) + source.0 <= canvas.0,
{
}

/// `max_concurrent` capped to the actual slot count.
pub fn effective_max_concurrent(cfg: &AnimationConfig, slot_count: usize) -> (res: usize)
    ensures
        res == (if cfg.max_concurrent <= slot_count {
            cfg.max_concurrent as int
        } else {
            slot_count as int
        }),
{
    if (cfg.max_concurrent as u64) <= (slot_count as u64) {
        cfg.max_concurrent as usize
    } else {
        slot_count
    }
}

pub fn is_drop_oldest(policy: DropPolicy) -> (res: bool)
    ensures
        res == (policy == DropPolicy::DropOldest),
{
    match policy {
        DropPolicy::DropOldest => true,
        DropPolicy::DropNew => false,
    }
}

/// What the reactor does with a trigger.
#[derive(Debug, Clone, Copy, PartialEq, Eq, Structural)]
pub enum Admission {
    /// Claim a free slot.
    Proceed,
    /// Ignore the trigger; the reactions on screen keep their pacing.
    DropNew,
    /// Release the oldest active reaction, then claim a free slot.
    EvictOldest,
}

/// A cascade trigger that finds `max` reactions (or more) on screen is
/// dropped or evicts the oldest, as the policy says; an always-on
/// overlay, or a trigger below the cap, goes ahead.
pub open spec fn admission_spec(active: nat, max: nat, policy: DropPolicy, overlay: bool) -> Admission {
    if active >= max && !overlay {
        if policy == DropPolicy::DropOldest {
            Admission::EvictOldest
        } else {
            Admission::DropNew
        }
    } else {
        Admission::Proceed
    }
}

/// The admission of a trigger when `active` of `slot_count` slots are
/// busy. `overlay` marks an always-on overlay, which skips the cap.
pub fn admission(cfg: &AnimationConfig, active: usize, slot_count: usize, overlay: bool) -> (res: Admission)
    ensures
        res == admission_spec(
            active as nat,
            (if cfg.max_concurrent <= slot_count {
                cfg.max_concurrent as nat
            } else {
                slot_count as nat
            }),
            cfg.drop_policy,
            overlay,
        ),
{
    let max = effective_max_concurrent(cfg, slot_count);
    if active >= max && !overlay {
        if is_drop_oldest(cfg.drop_policy) {
            Admission::EvictOldest
        } else {
            Admission::DropNew
        }
    } else {
        Admission::Proceed
    }
}

pub open spec fn count_true(s: Seq<bool>) -> nat
    decreases s.len(),
{
    if s.len() == 0 {
        0
    } else {
        count_true(s.drop_last()) + if s.last() {
            1nat
        } else {
            0
        }
    }
}

/// How many slots are busy.
pub fn count_busy(busy: &[bool]) -> (res: usize)
    ensures
        res == count_true(busy@),
{
    let mut n: usize = 0;
    let mut i: usize = 0;
    while i < busy.len()
        invariant
            i <= busy@.len(),
            n == count_true(busy@.take(i as int)),
            n <= i,
        decreases busy@.len() - i,
    {
        assert(busy@.take(i + 1).drop_last() =~= busy@.take(i as int));
        if busy[i] {
            n = n + 1;
        }
        i = i + 1;
    }
    assert(busy@.take(busy@.len() as int) =~= busy@);
    n
}

/// Index of the reaction that started first: the smallest start time
/// among busy slots (`None` for idle ones), the lowest index among
/// equal ones.
pub open spec fn is_oldest(started: Seq<Option<u64>>, k: int) -> bool {
    &&& 0 <= k < started.len()
    &&& started[k] is Some
    &&& forall|j: int|
        0 <= j < started.len() && (#[trigger] started[j]) is Some ==> started[k]->0 <= started[j]->0
    &&& forall|j: int| 0 <= j < k && (#[trigger] started[j]) is Some ==> started[k]->0 < started[j]->0
}

/// The slot whose reaction started first, if any slot is busy.
pub fn oldest_active(started: &[Option<u64>]) -> (res: Option<usize>)
    ensures
        match res {
            Some(k) => is_oldest(started@, k as int),
            None => forall|j: int| 0 <= j < started@.len() ==> (#[trigger] started@[j]) is None,
        },
{
    let mut best: Option<usize> = None;
    let mut i: usize = 0;
    while i < started.len()
        invariant
            i <= started@.len(),
            match best {
                Some(k) => {
                    &&& k < i
                    &&& started@[k as int] is Some
                    &&& forall|j: int|
                        0 <= j < i && (#[trigger] started@[j]) is Some ==> started@[k as int]->0
                            <= started@[j]->0
                    &&& forall|j: int|
                        0 <= j < k && (#[trigger] started@[j]) is Some ==> started@[k as int]->0
                            < started@[j]->0
                },
                None => forall|j: int| 0 <= j < i ==> (#[trigger] started@[j]) is None,
            },
        decreases started@.len() - i,
    {
        match started[i] {
            None => {},
            Some(t) => {
                match best {
                    None => {
                        best = Some(i);
                    },
                    Some(k) => {
                        let tk = match started[k] {
                            Some(x) => x,
                            None => 0,
                        };
                        if t < tk {
                            best = Some(i);
                        }
                    },
                }
            },
        }
        i = i + 1;
    }
    best
}

} // verus!
