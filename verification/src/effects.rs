//! The cascade curves a triggered reaction rides: key points of the
//! compositor pad's `alpha`, `ypos` and `xpos` over the reaction's
//! lifetime, in pipeline running time (nanoseconds).

use vstd::prelude::*;

verus! {

/// One key point of an interpolation curve.
#[derive(Debug, Clone, Copy, PartialEq, Eq, Structural)]
pub struct Keyframe {
    /// Running time in nanoseconds.
    pub at: u64,
    /// Value at that time (alpha as 0 or 1, positions in pixels).
    pub value: i32,
}

pub open spec fn min_u64(a: u64, b: u64) -> u64 {
    if a <= b {
        a
    } else {
        b
    }
}

/// The instants of the alpha curve: visible once the fade-in is over,
/// held until the fade-out starts, transparent once the fade-out is
/// over; each capped by the end of the lifetime.
pub open spec fn visible_at(start: u64, total: u64, fade_in: u64) -> int {
    start + min_u64(fade_in, total)
}

pub open spec fn hold_until(start: u64, total: u64, fade_out_start: u64) -> int {
    start + min_u64(fade_out_start, total)
}

pub open spec fn fade_done(start: u64, total: u64, fade_out_start: u64, fade_out: u64) -> int {
    let h = hold_until(start, total, fade_out_start);
    let e = start + total;
    if h + fade_out <= e {
        h + fade_out
    } else {
        e
    }
}

/// The alpha curve's key points, in the order they are set. A key point
/// at time 0 with alpha 0 comes first, so the curve has a value before
/// the reaction starts; key points at equal times are set in turn, the
/// later one winning.
pub open spec fn alpha_curve(start: u64, total: u64, fade_in: u64, fade_out_start: u64, fade_out: u64) -> Seq<(int, int)> {
    let v = visible_at(start, total, fade_in);
    let h = hold_until(start, total, fade_out_start);
    let d = fade_done(start, total, fade_out_start, fade_out);
    let e = start + total;
    let head = seq![(0int, 0int), (start as int, 0int), (v, 1int)];
    let held = if h > v {
        head.push((h, 1int))
    } else {
        head
    };
    let faded = held.push((d, 0int));
    if d < e {
        faded.push((e, 0int))
    } else {
        faded
    }
}

pub open spec fn keyframe_pairs(k: Seq<Keyframe>) -> Seq<(int, int)> {
    k.map_values(|f: Keyframe| (f.at as int, f.value as int))
}

/// Running times fit in a `u64` (the pipeline's clock type panics on
/// overflow).
pub open spec fn curve_fits(start: u64, total: u64, fade_out_start: u64, fade_out: u64) -> bool {
    &&& start + total <= u64::MAX
    &&& hold_until(start, total, fade_out_start) + fade_out <= u64::MAX
}

/// Whether a reaction's curves fit the pipeline clock.
pub fn curves_fit_clock(start: u64, total: u64, fade_out_start: u64, fade_out: u64) -> (res: bool)
    ensures
        res == curve_fits(start, total, fade_out_start, fade_out),
{
    if total > u64::MAX - start {
        return false;
    }
    let h = start + if fade_out_start < total {
        fade_out_start
    } else {
        total
    };
    fade_out <= u64::MAX - h
}

/// The key points of the alpha curve of a reaction that starts at
/// `start` and lives `total` nanoseconds.
pub fn alpha_keyframes(start: u64, total: u64, fade_in: u64, fade_out_start: u64, fade_out: u64) -> (res: Vec<Keyframe>)
    requires
        curve_fits(start, total, fade_out_start, fade_out),
    ensures
        keyframe_pairs(res@) == alpha_curve(start, total, fade_in, fade_out_start, fade_out),
        // No key point lies past the end of the lifetime, and the last
        // one set is transparent at that end.
        forall|i: int| 0 <= i < res@.len() ==> res@[i].at <= start + total,
        res@.last() == (Keyframe { at: (start + total) as u64, value: 0 }),
{
    let end = start + total;
    let v = start + if fade_in < total {
        fade_in
    } else {
        total
    };
    let h = start + if fade_out_start < total {
        fade_out_start
    } else {
        total
    };
    let d = if h + fade_out <= end {
        h + fade_out
    } else {
        end
    };
    let mut k: Vec<Keyframe> = Vec::new();
    k.push(Keyframe { at: 0, value: 0 });
    k.push(Keyframe { at: start, value: 0 });
    k.push(Keyframe { at: v, value: 1 });
    if h > v {
        k.push(Keyframe { at: h, value: 1 });
    }
    k.push(Keyframe { at: d, value: 0 });
    if d < end {
        k.push(Keyframe { at: end, value: 0 });
    }
    assert(keyframe_pairs(k@) =~= alpha_curve(start, total, fade_in, fade_out_start, fade_out));
    k
}

/// The key points of a position that moves linearly from `from` at
/// `start` to `to` at the end of the lifetime.
pub fn position_keyframes(start: u64, total: u64, from: i32, to: i32) -> (res: Vec<Keyframe>)
    requires
        start + total <= u64::MAX,
    ensures
        res@ == seq![
            Keyframe { at: start, value: from },
            Keyframe { at: (start + total) as u64, value: to },
        ],
{
    let mut k: Vec<Keyframe> = Vec::new();
    k.push(Keyframe { at: start, value: from });
    k.push(Keyframe { at: start + total, value: to });
    assert(k@ =~= seq![
        Keyframe { at: start, value: from },
        Keyframe { at: (start + total) as u64, value: to },
    ]);
    k
}

/// The horizontal position is animated only when the reaction moves
/// sideways.
pub fn needs_xpos_curve(start_x: i32, end_x: i32) -> (res: bool)
    ensures
        res == (start_x != end_x),
{
    start_x != end_x
}

/// A duration in nanoseconds as the pipeline clock holds it: saturated
/// at `u64::MAX`.
pub fn clock_nanos(nanos: u128) -> (res: u64)
    ensures
        res == (if nanos > u64::MAX {
            u64::MAX as int
        } else {
            nanos as int
        }),
{
    if nanos > 0xFFFF_FFFF_FFFF_FFFFu128 {
        0xFFFF_FFFF_FFFF_FFFFu64
    } else {
        nanos as u64
    }
}

/// Milliseconds as pipeline clock nanoseconds, saturated at `u64::MAX`.
pub fn millis_to_clock(ms: u64) -> (res: u64)
    ensures
        res == (if ms * 1_000_000 > u64::MAX {
            u64::MAX as int
        } else {
            ms * 1_000_000
        }),
{
    clock_nanos(ms as u128 * 1_000_000)
}

} // verus!
