//! The UI side of the IPC conversation: what each reply means for the
//! command that asked for it, and the decisions behind the settings
//! commands.

use vstd::prelude::*;

use crate::daemon::DaemonArgs;
use crate::inputs::{same_path, same_path_chars};
use crate::prefs::UiPrefs;
use crate::protocol::{EmojiInfo, InputDeviceInfo, Response};
use crate::reply_text::{render_response, response_text};
use crate::text::{chars_of, string_from, trim, trim_chars};

verus! {

/// The error text for a reply of the wrong kind.
pub fn unexpected_response(response: Response) -> (res: String)
    ensures
        res@ == "unexpected response: "@ + response_text(response),
{
    let mut s = "unexpected response: ".to_owned();
    s.append(render_response(&response).as_str());
    s
}

pub open spec fn unexpected(r: Response, res: String) -> bool {
    res@ == "unexpected response: "@ + response_text(r)
}

/// The reply to a command that answers with a bare acknowledgement.
pub fn expect_ok(response: Response) -> (res: Result<(), String>)
    ensures
        match response {
            Response::Accepted => res == Ok::<(), String>(()),
            Response::Error { message } => res == Err::<(), String>(message),
            _ => res matches Err(e) && unexpected(response, e),
        },
{
    match response {
        Response::Accepted => Ok(()),
        Response::Error { message } => Err(message),
        other => Err(unexpected_response(other)),
    }
}

/// The reply to `Command::ListEmoji`.
pub fn expect_emoji_list(response: Response) -> (res: Result<Vec<EmojiInfo>, String>)
    ensures
        match response {
            Response::EmojiList { items } => res == Ok::<Vec<EmojiInfo>, String>(items),
            Response::Error { message } => res == Err::<Vec<EmojiInfo>, String>(message),
            _ => res matches Err(e) && unexpected(response, e),
        },
{
    match response {
        Response::EmojiList { items } => Ok(items),
        Response::Error { message } => Err(message),
        other => Err(unexpected_response(other)),
    }
}

/// Predownload progress as the UI shows it.
#[derive(Debug, Clone, Copy, PartialEq, Eq, Structural)]
pub struct SyncStatusInfo {
    pub fetched: u32,
    pub total: u32,
    pub complete: bool,
}

/// The reply to `Command::SyncStatus`.
pub fn expect_sync_status(response: Response) -> (res: Result<SyncStatusInfo, String>)
    ensures
        match response {
            Response::SyncStatus { fetched, total, complete } => res == Ok::<
                SyncStatusInfo,
                String,
            >(SyncStatusInfo { fetched, total, complete }),
            Response::Error { message } => res == Err::<SyncStatusInfo, String>(message),
            _ => res matches Err(e) && unexpected(response, e),
        },
{
    match response {
        Response::SyncStatus { fetched, total, complete } => Ok(
            SyncStatusInfo { fetched, total, complete },
        ),
        Response::Error { message } => Err(message),
        other => Err(unexpected_response(other)),
    }
}

/// The reply to `Command::PreviewUrl`.
pub fn expect_preview_url(response: Response) -> (res: Result<Option<String>, String>)
    ensures
        match response {
            Response::PreviewUrl { url } => res == Ok::<Option<String>, String>(url),
            Response::Error { message } => res == Err::<Option<String>, String>(message),
            _ => res matches Err(e) && unexpected(response, e),
        },
{
    match response {
        Response::PreviewUrl { url } => Ok(url),
        Response::Error { message } => Err(message),
        other => Err(unexpected_response(other)),
    }
}

/// The reply to `Command::ListInputs`.
pub fn expect_input_list(response: Response) -> (res: Result<Vec<InputDeviceInfo>, String>)
    ensures
        match response {
            Response::InputList { items } => res == Ok::<Vec<InputDeviceInfo>, String>(items),
            Response::Error { message } => res == Err::<Vec<InputDeviceInfo>, String>(message),
            _ => res matches Err(e) && unexpected(response, e),
        },
{
    match response {
        Response::InputList { items } => Ok(items),
        Response::Error { message } => Err(message),
        other => Err(unexpected_response(other)),
    }
}

/// Slot count used when the settings pane sends none.
pub fn default_slot_count_setting() -> (res: usize)
    ensures
        res == 48,
{
    48
}

/// Slot dimension used when the settings pane sends none.
pub fn default_slot_dim_setting() -> (res: u32)
    ensures
        res == 256,
{
    256
}

/// Capture settings chosen in the settings pane.
#[derive(Debug, Clone)]
pub struct AppliedSettings {
    pub device: String,
    pub width: u32,
    pub height: u32,
    pub fps_num: u32,
    pub fps_den: u32,
    pub preview: bool,
    pub slot_count: usize,
    pub slot_dim: u32,
}

/// The settings already match what the daemon runs with.
pub open spec fn settings_match(args: DaemonArgs, s: AppliedSettings) -> bool {
    &&& same_path(args.input@, s.device@)
    &&& args.width == s.width
    &&& args.height == s.height
    &&& args.fps_num == s.fps_num
    &&& args.fps_den == s.fps_den
    &&& args.preview == s.preview
    &&& args.slot_count == s.slot_count
    &&& args.slot_dim == s.slot_dim
}

/// The spawn arguments after taking in `s`: every chosen value, the
/// output device kept.
pub open spec fn applied(args: DaemonArgs, s: AppliedSettings) -> DaemonArgs {
    DaemonArgs {
        input: s.device,
        output: args.output,
        width: s.width,
        height: s.height,
        fps_num: s.fps_num,
        fps_den: s.fps_den,
        preview: s.preview,
        slot_count: s.slot_count,
        slot_dim: s.slot_dim,
    }
}

/// Takes the chosen settings into the daemon's spawn arguments. Returns
/// `false`, leaving `args` alone, when they already match (no respawn
/// is needed); otherwise copies every chosen value (the output device is
/// kept) and returns `true`.
pub fn update_args(args: &mut DaemonArgs, settings: &AppliedSettings) -> (respawn: bool)
    ensures
        respawn == !settings_match(*old(args), *settings),
        !respawn ==> *final(args) == *old(args),
        respawn ==> *final(args) == applied(*old(args), *settings),
{
    let same_input = same_path_chars(
        &chars_of(args.input.as_str()),
        &chars_of(settings.device.as_str()),
    );
    if same_input && args.width == settings.width && args.height == settings.height
        && args.fps_num == settings.fps_num && args.fps_den == settings.fps_den && args.preview
        == settings.preview && args.slot_count == settings.slot_count && args.slot_dim
        == settings.slot_dim {
        return false;
    }
    args.input = settings.device.clone();
    args.width = settings.width;
    args.height = settings.height;
    args.fps_num = settings.fps_num;
    args.fps_den = settings.fps_den;
    args.preview = settings.preview;
    args.slot_count = settings.slot_count;
    args.slot_dim = settings.slot_dim;
    true
}

/// The capture settings the settings pane shows.
#[derive(Debug, Clone)]
pub struct CurrentSettings {
    pub device: String,
    pub width: u32,
    pub height: u32,
    pub fps_num: u32,
    pub fps_den: u32,
    pub preview: bool,
    pub slot_count: usize,
    pub slot_dim: u32,
}

/// The settings pane's view of the daemon's spawn arguments.
pub fn current_settings(args: &DaemonArgs) -> (res: CurrentSettings)
    ensures
        res.device == args.input,
        res.width == args.width,
        res.height == args.height,
        res.fps_num == args.fps_num,
        res.fps_den == args.fps_den,
        res.preview == args.preview,
        res.slot_count == args.slot_count,
        res.slot_dim == args.slot_dim,
{
    CurrentSettings {
        device: args.input.clone(),
        width: args.width,
        height: args.height,
        fps_num: args.fps_num,
        fps_den: args.fps_den,
        preview: args.preview,
        slot_count: args.slot_count,
        slot_dim: args.slot_dim,
    }
}

pub open spec fn opt_view(s: Option<String>) -> Option<Seq<char>> {
    match s {
        Some(x) => Some(x@),
        None => None,
    }
}

/// A hotkey binding as entered: surrounding whitespace removed, and an
/// empty binding read as none.
pub open spec fn normalized_hotkey(s: Option<Seq<char>>) -> Option<Seq<char>> {
    match s {
        None => None,
        Some(x) => if trim(x).len() == 0 {
            None
        } else {
            Some(trim(x))
        },
    }
}

/// Trims a hotkey binding; an empty binding becomes none.
pub fn normalize_hotkey(s: Option<String>) -> (res: Option<String>)
    ensures
        opt_view(res) == normalized_hotkey(opt_view(s)),
{
    match s {
        None => None,
        Some(x) => {
            let t = trim_chars(&chars_of(x.as_str()));
            if t.len() == 0 {
                None
            } else {
                Some(string_from(&t))
            }
        },
    }
}

/// The preferences as the panel shows them.
#[derive(Debug, Clone)]
pub struct PrefsSnapshot {
    pub recents: Vec<String>,
    pub favorites: Vec<String>,
    pub hotkey_toggle: Option<String>,
    pub hotkey_repeat: Option<String>,
    pub color_scheme: String,
    pub safe_mode: bool,
}

/// A snapshot of the preferences.
pub fn prefs_snapshot(p: &UiPrefs) -> (res: PrefsSnapshot)
    ensures
        res.recents@ == p.recents@,
        res.favorites@ == p.favorites@,
        res.hotkey_toggle == p.hotkey_toggle,
        res.hotkey_repeat == p.hotkey_repeat,
        res.color_scheme == p.color_scheme,
        res.safe_mode == p.safe_mode,
{
    let c = p.clone_fields();
    PrefsSnapshot {
        recents: c.recents,
        favorites: c.favorites,
        hotkey_toggle: c.hotkey_toggle,
        hotkey_repeat: c.hotkey_repeat,
        color_scheme: c.color_scheme,
        safe_mode: c.safe_mode,
    }
}

/// The error of a respawn that failed, after a loopback reset that
/// failed too: both messages, a blank line apart.
pub fn reset_failed_message(spawn_error: &str, reset_error: &str) -> (res: String)
    ensures
        res@ == spawn_error@ + "\n\nAuto-reset also failed: "@ + reset_error@,
{
    let mut m = spawn_error.to_owned();
    m.append("\n\nAuto-reset also failed: ");
    m.append(reset_error);
    m
}

/// The error of a respawn that failed again after a successful loopback
/// reset.
pub fn after_reset_message(error: &str) -> (res: String)
    ensures
        res@ == "after auto-reset: "@ + error@,
{
    let mut m = "after auto-reset: ".to_owned();
    m.append(error);
    m
}

/// Applying the same settings twice respawns the daemon once: after the
/// first time the arguments already match them.
pub proof fn law_same_settings_respawn_once(args: DaemonArgs, s: AppliedSettings)
    ensures
        settings_match(applied(args, s), s),
{
}

/// What `update_args` leaves behind, for any arguments `old` and choice
/// `s`: the daemon runs with every chosen value afterwards, width and
/// height included, whether or not it was respawned (the camera named
/// by the chosen path, perhaps spelt otherwise), and keeps its output
/// device. It is left alone exactly when nothing chosen differs, and
/// respawned whenever any chosen value differs from what it runs with.
pub proof fn law_update_takes_every_choice(old: DaemonArgs, s: AppliedSettings, respawn: bool, new: DaemonArgs)
    requires
        respawn == !settings_match(old, s),
        !respawn ==> new == old,
        respawn ==> new == applied(old, s),
    ensures
        new.width == s.width,
        new.height == s.height,
        new.fps_num == s.fps_num,
        new.fps_den == s.fps_den,
        new.preview == s.preview,
        new.slot_count == s.slot_count,
        new.slot_dim == s.slot_dim,
        same_path(new.input@, s.device@),
        new.output == old.output,
        !respawn <==> (same_path(old.input@, s.device@) && old.width == s.width && old.height
            == s.height && old.fps_num == s.fps_num && old.fps_den == s.fps_den && old.preview
            == s.preview && old.slot_count == s.slot_count && old.slot_dim == s.slot_dim),
{
}

/// Where a respawn with new settings stands.
#[derive(Debug, Clone, PartialEq, Eq)]
pub enum Respawn {
    /// The daemon is being spawned with the new settings.
    FirstSpawn,
    /// That spawn failed with `spawn_error`; the loopback is being reset.
    Resetting { spawn_error: String },
    /// The reset worked; the daemon is being spawned once more.
    SecondSpawn,
}

/// What the panel does next.
#[derive(Debug, Clone, PartialEq, Eq)]
pub enum RespawnAction {
    /// Spawn the daemon.
    Spawn,
    /// Reset the loopback module.
    ResetLoopback,
    /// The daemon runs.
    Done,
    /// Give up with this message.
    Fail(String),
}

pub open spec fn respawn_spec(state: Respawn, outcome: Result<(), String>) -> (Respawn, Option<RespawnAction>) {
    match state {
        Respawn::FirstSpawn => match outcome {
            Ok(()) => (Respawn::FirstSpawn, Some(RespawnAction::Done)),
            Err(e) => (Respawn::Resetting { spawn_error: e }, Some(RespawnAction::ResetLoopback)),
        },
        Respawn::Resetting { spawn_error } => match outcome {
            Ok(()) => (Respawn::SecondSpawn, Some(RespawnAction::Spawn)),
            Err(_) => (state, None),
        },
        Respawn::SecondSpawn => match outcome {
            Ok(()) => (Respawn::SecondSpawn, Some(RespawnAction::Done)),
            Err(_) => (state, None),
        },
    }
}

/// One step of a respawn: `outcome` is how the last spawn or reset went.
/// A failed first spawn gets one loopback reset and one more spawn; a
/// failed reset or second spawn gives up with both causes or the second
/// one.
pub fn respawn_next(state: Respawn, outcome: Result<(), String>) -> (res: (Respawn, RespawnAction))
    ensures
        respawn_spec(state, outcome) matches (s, Some(a)) ==> res == (s, a),
        respawn_spec(state, outcome).1 is None ==> res.0 == respawn_spec(state, outcome).0
            && res.1 is Fail,
        match (state, outcome) {
            (Respawn::FirstSpawn, Ok(())) => res == (Respawn::FirstSpawn, RespawnAction::Done),
            (Respawn::FirstSpawn, Err(e)) => res == (
                Respawn::Resetting { spawn_error: e },
                RespawnAction::ResetLoopback,
            ),
            (Respawn::Resetting { spawn_error }, Ok(())) => res == (
                Respawn::SecondSpawn,
                RespawnAction::Spawn,
            ),
            (Respawn::Resetting { spawn_error }, Err(r)) => {
                &&& res.0 == (Respawn::Resetting { spawn_error })
                &&& res.1 matches RespawnAction::Fail(m) && m@ == spawn_error@
                    + "\n\nAuto-reset also failed: "@ + r@
            },
            (Respawn::SecondSpawn, Ok(())) => res == (Respawn::SecondSpawn, RespawnAction::Done),
            (Respawn::SecondSpawn, Err(e)) => {
                &&& res.0 == Respawn::SecondSpawn
                &&& res.1 matches RespawnAction::Fail(m) && m@ == "after auto-reset: "@ + e@
            },
        },
{
    match state {
        Respawn::FirstSpawn => match outcome {
            Ok(()) => (Respawn::FirstSpawn, RespawnAction::Done),
            Err(e) => (Respawn::Resetting { spawn_error: e }, RespawnAction::ResetLoopback),
        },
        Respawn::Resetting { spawn_error } => match outcome {
            Ok(()) => (Respawn::SecondSpawn, RespawnAction::Spawn),
            Err(r) => {
                let m = reset_failed_message(spawn_error.as_str(), r.as_str());
                (Respawn::Resetting { spawn_error }, RespawnAction::Fail(m))
            },
        },
        Respawn::SecondSpawn => match outcome {
            Ok(()) => (Respawn::SecondSpawn, RespawnAction::Done),
            Err(e) => (Respawn::SecondSpawn, RespawnAction::Fail(after_reset_message(e.as_str()))),
        },
    }
}

/// A respawn spawns at most twice and resets at most once: from the
/// first spawn, whatever the outcomes, the third step never asks for
/// more work.
pub proof fn law_respawn_is_bounded(o1: Result<(), String>, o2: Result<(), String>, o3: Result<(), String>)
    ensures
        ({
            let (s1, a1) = respawn_spec(Respawn::FirstSpawn, o1);
            let (s2, a2) = respawn_spec(s1, o2);
            let (s3, a3) = respawn_spec(s2, o3);
            &&& a1 matches Some(x) && (x == RespawnAction::Done || x == RespawnAction::ResetLoopback)
            &&& a1 == Some(RespawnAction::ResetLoopback) ==> (a2 is None || a2 == Some(
                RespawnAction::Spawn,
            ))
            &&& a2 == Some(RespawnAction::Spawn) ==> (a3 is None || a3 == Some(RespawnAction::Done))
        }),
{
}

} // verus!
