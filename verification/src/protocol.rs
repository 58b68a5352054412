//! Wire types for the daemon's IPC surface: one `Command` per line in,
//! one `Response` per line out, in the same order. The JSON framing
//! lives with the program that talks on the socket; these are the values
//! it carries.

use std::collections::BTreeMap;

use vstd::prelude::*;

verus! {

/// An IEEE-754 binary32 number carried by its bit pattern. The library
/// never computes with these values; it stores and hands them on.
#[derive(Debug, Clone, Copy, PartialEq, Eq, Structural)]
pub struct Binary32(pub u32);

/// Daemon → client reply for a single `Command`.
#[derive(Debug, Clone, PartialEq, Eq)]
#[allow(inconsistent_fields)]
pub enum Response {
    /// Command accepted and executed (`{"type":"ok"}` on the wire).
    Accepted,
    /// Command rejected; `message` is human-readable, not stable.
    Error { message: String },
    /// Reply to `Command::ListEmoji`: every catalog entry the daemon knows.
    EmojiList { items: Vec<EmojiInfo> },
    /// Reply to `Command::SyncStatus`: predownload progress. `complete`
    /// is `true` once every entry was fetched or given up on.
    SyncStatus { fetched: u32, total: u32, complete: bool },
    /// Reply to `Command::ListInputs`: capture devices other than the
    /// daemon's own loopback output.
    InputList { items: Vec<InputDeviceInfo> },
    /// Reply to `Command::PreviewUrl`; `None` when the daemon runs
    /// without a preview.
    PreviewUrl { url: Option<String> },
}

/// Client → daemon request.
#[derive(Debug, Clone, PartialEq)]
pub enum Command {
    /// Fire a reaction; `emoji_id` is a key of the bundled catalog.
    Trigger { emoji_id: String },
    /// Enumerate every emoji in the catalog.
    ListEmoji,
    /// Query the preview downloader's progress.
    SyncStatus,
    /// Enumerate capture devices on the host.
    ListInputs,
    /// Replace the live animation parameters for later triggers.
    SetAnimationConfig { config: AnimationConfig },
    /// Ask for the preview MJPEG URL.
    PreviewUrl,
}

/// What to do when a trigger arrives while `max_concurrent` reactions
/// are already on screen.
#[derive(Debug, Clone, Copy, PartialEq, Eq, Structural)]
pub enum DropPolicy {
    /// Silently drop the new trigger.
    DropNew,
    /// Force-fade the oldest active reaction and reuse its slot.
    DropOldest,
}

impl Default for DropPolicy {
    fn default() -> (res: Self)
        ensures
            res == DropPolicy::DropNew,
    {
        DropPolicy::DropNew
    }
}

/// Tunable parameters of the cascading-emoji animation.
#[derive(Debug, PartialEq)]
pub struct AnimationConfig {
    /// On-screen lifetime in milliseconds, before the per-instance speed
    /// factor.
    pub lifetime_ms: u32,
    /// Fade-in ramp duration.
    pub fade_in_ms: u32,
    /// Time after activation when the fade-out starts.
    pub fade_out_start_ms: u32,
    /// Fade-out ramp duration.
    pub fade_out_ms: u32,
    /// Distance traveled over the lifetime, in canvas pixels.
    pub travel_px: Binary32,
    /// Per-instance speed jitter as a fraction of the lifetime.
    pub speed_jitter_pct: Binary32,
    /// Horizontal anchor of the spawn band as a fraction of the width.
    pub start_x_fraction: Binary32,
    /// Offset above the bottom edge where reactions spawn, in pixels.
    pub start_y_offset_px: Binary32,
    /// Half-width of the horizontal random band around the anchor.
    pub x_jitter_px: Binary32,
    /// Direction of travel in degrees; 90 is straight up.
    pub direction_angle_deg: Binary32,
    /// APNG playback-rate multiplier.
    pub apng_speed_multiplier: Binary32,
    /// Cap on simultaneously visible reactions.
    pub max_concurrent: u32,
    /// What happens when `max_concurrent` is reached.
    pub drop_policy: DropPolicy,
    /// Per-emoji overrides on top of the global values.
    pub overrides: BTreeMap<String, AnimationOverrides>,
}

impl AnimationConfig {
    /// The fields other than `overrides`.
    pub open spec fn scalars(self) -> (u32, u32, u32, u32, Binary32, Binary32, Binary32, Binary32, Binary32, Binary32, Binary32, u32, DropPolicy) {
        (
            self.lifetime_ms,
            self.fade_in_ms,
            self.fade_out_start_ms,
            self.fade_out_ms,
            self.travel_px,
            self.speed_jitter_pct,
            self.start_x_fraction,
            self.start_y_offset_px,
            self.x_jitter_px,
            self.direction_angle_deg,
            self.apng_speed_multiplier,
            self.max_concurrent,
            self.drop_policy,
        )
    }

    /// The default parameters: 5 s lifetime, 200 ms fade-in, fade-out
    /// from 3 s over 2 s, 480 px of travel straight up (90 degrees) from
    /// 80 px above the bottom at mid-width, 220 px spawn jitter, 25 %
    /// speed jitter, native APNG speed, at most 32 at once, new triggers
    /// dropped when full, no overrides.
    pub open spec fn is_default(self) -> bool {
        &&& self.lifetime_ms == 5000
        &&& self.fade_in_ms == 200
        &&& self.fade_out_start_ms == 3000
        &&& self.fade_out_ms == 2000
        &&& self.travel_px == Binary32(0x43f0_0000)
        &&& self.speed_jitter_pct == Binary32(0x3e80_0000)
        &&& self.start_x_fraction == Binary32(0x3f00_0000)
        &&& self.start_y_offset_px == Binary32(0x42a0_0000)
        &&& self.x_jitter_px == Binary32(0x435c_0000)
        &&& self.direction_angle_deg == Binary32(0x42b4_0000)
        &&& self.apng_speed_multiplier == Binary32(0x3f80_0000)
        &&& self.max_concurrent == 32
        &&& self.drop_policy == DropPolicy::DropNew
        &&& self.overrides@ == Map::<String, AnimationOverrides>::empty()
    }

    /// Same scalar fields and same overrides.
    pub open spec fn same_as(self, other: AnimationConfig) -> bool {
        self.scalars() == other.scalars() && self.overrides@ == other.overrides@
    }
}

impl Clone for AnimationConfig {
    fn clone(&self) -> (res: Self)
        ensures
            res.same_as(*self),
    {
        AnimationConfig {
            lifetime_ms: self.lifetime_ms,
            fade_in_ms: self.fade_in_ms,
            fade_out_start_ms: self.fade_out_start_ms,
            fade_out_ms: self.fade_out_ms,
            travel_px: self.travel_px,
            speed_jitter_pct: self.speed_jitter_pct,
            start_x_fraction: self.start_x_fraction,
            start_y_offset_px: self.start_y_offset_px,
            x_jitter_px: self.x_jitter_px,
            direction_angle_deg: self.direction_angle_deg,
            apng_speed_multiplier: self.apng_speed_multiplier,
            max_concurrent: self.max_concurrent,
            drop_policy: self.drop_policy,
            overrides: self.overrides.clone(),
        }
    }
}

impl Default for AnimationConfig {
    /// 5 s lifetime, 200 ms fade-in, fade-out from 3 s over 2 s, 480 px
    /// of travel straight up from 80 px above the bottom at mid-width,
    /// ±220 px spawn jitter, 25 % speed jitter, native APNG speed, at
    /// most 32 at once, new triggers dropped when full, no overrides.
    fn default() -> (res: Self)
        ensures
            res.is_default(),
    {
        AnimationConfig {
            lifetime_ms: 5000,
            fade_in_ms: 200,
            fade_out_start_ms: 3000,
            fade_out_ms: 2000,
            travel_px: Binary32(0x43f0_0000),
            speed_jitter_pct: Binary32(0x3e80_0000),
            start_x_fraction: Binary32(0x3f00_0000),
            start_y_offset_px: Binary32(0x42a0_0000),
            x_jitter_px: Binary32(0x435c_0000),
            direction_angle_deg: Binary32(0x42b4_0000),
            apng_speed_multiplier: Binary32(0x3f80_0000),
            max_concurrent: 32,
            drop_policy: DropPolicy::DropNew,
            overrides: BTreeMap::new(),
        }
    }
}

/// Per-emoji partial overrides; `None` means "use the global value".
#[derive(Debug, Clone, Copy, PartialEq, Eq, Structural)]
pub struct AnimationOverrides {
    pub lifetime_ms: Option<u32>,
    pub fade_in_ms: Option<u32>,
    pub fade_out_start_ms: Option<u32>,
    pub fade_out_ms: Option<u32>,
    pub travel_px: Option<Binary32>,
    pub speed_jitter_pct: Option<Binary32>,
    pub start_x_fraction: Option<Binary32>,
    pub start_y_offset_px: Option<Binary32>,
    pub x_jitter_px: Option<Binary32>,
    pub direction_angle_deg: Option<Binary32>,
    pub apng_speed_multiplier: Option<Binary32>,
}

impl Default for AnimationOverrides {
    fn default() -> (res: Self)
        ensures
            res == (AnimationOverrides {
                lifetime_ms: None,
                fade_in_ms: None,
                fade_out_start_ms: None,
                fade_out_ms: None,
                travel_px: None,
                speed_jitter_pct: None,
                start_x_fraction: None,
                start_y_offset_px: None,
                x_jitter_px: None,
                direction_angle_deg: None,
                apng_speed_multiplier: None,
            }),
    {
        AnimationOverrides {
            lifetime_ms: None,
            fade_in_ms: None,
            fade_out_start_ms: None,
            fade_out_ms: None,
            travel_px: None,
            speed_jitter_pct: None,
            start_x_fraction: None,
            start_y_offset_px: None,
            x_jitter_px: None,
            direction_angle_deg: None,
            apng_speed_multiplier: None,
        }
    }
}

/// One v4l2 capture device.
#[derive(Debug, Clone, PartialEq, Eq)]
pub struct InputDeviceInfo {
    /// `/dev/videoN` path.
    pub device: String,
    /// Human-friendly label (e.g. `"Logitech BRIO"`).
    pub name: String,
    /// Supported raw capture modes, highest first.
    pub modes: Vec<Mode>,
}

impl View for InputDeviceInfo {
    type V = (Seq<char>, Seq<char>, Seq<Mode>);

    open spec fn view(&self) -> (Seq<char>, Seq<char>, Seq<Mode>) {
        (self.device@, self.name@, self.modes@)
    }
}

/// One supported capture mode: resolution plus framerate as a rational.
#[derive(Debug, Clone, Copy, PartialEq, Eq, Hash, Structural)]
pub struct Mode {
    pub width: u32,
    pub height: u32,
    pub fps_num: u32,
    pub fps_den: u32,
}

/// One entry of the bundled emoji catalog as the UI sees it.
#[derive(Debug, Clone, PartialEq, Eq)]
pub struct EmojiInfo {
    /// Stable `snake_case` id used by `Command::Trigger`.
    pub id: String,
    /// Upstream display name.
    pub name: String,
    /// Unicode glyph for fallback rendering.
    pub glyph: String,
    /// Unicode group for sectioning.
    pub group: String,
    /// Free-text keywords for client-side search.
    pub keywords: Vec<String>,
    /// `true` if an animated PNG exists.
    pub has_animated: bool,
    /// Where the daemon expects the static preview to live.
    pub preview_path: String,
}

} // verus!
