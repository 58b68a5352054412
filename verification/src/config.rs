//! Persisted UI settings. The UI is the source of truth; the daemon gets
//! the values as command-line arguments and IPC pushes.

use vstd::prelude::*;

use crate::cache::{join, join_path};
use crate::daemon::DaemonArgs;
use crate::prefs::UiPrefs;
use crate::protocol::AnimationConfig;

verus! {

/// Default number of compositor slots.
pub fn default_slot_count() -> (res: usize)
    ensures
        res == 48,
{
    48
}

/// Default slot canvas dimension in pixels.
pub fn default_slot_dim() -> (res: u32)
    ensures
        res == 256,
{
    256
}

/// Everything the UI persists between launches.
#[derive(Debug)]
pub struct StoredConfig {
    pub input: String,
    pub output: String,
    pub width: u32,
    pub height: u32,
    pub fps_num: u32,
    pub fps_den: u32,
    pub preview: bool,
    pub slot_count: usize,
    pub slot_dim: u32,
    pub animations: AnimationConfig,
    /// Most recently triggered emoji ids, most recent first.
    pub recents: Vec<String>,
    pub favorites: Vec<String>,
    pub hotkey_toggle: Option<String>,
    pub hotkey_repeat: Option<String>,
    /// `None` reads as the default scheme ("dark").
    pub color_scheme: Option<String>,
    /// `None` reads as safe mode off.
    pub safe_mode: Option<bool>,
}

impl Default for StoredConfig {
    /// The default daemon settings and animations, and no preferences.
    fn default() -> (res: Self)
        ensures
            ({
                let d = res.daemon_args_spec();
                &&& d.input@ == "/dev/video0"@
                &&& d.output@ == "/dev/video10"@
                &&& d.width == 1280 && d.height == 720
                &&& d.fps_num == 30 && d.fps_den == 1
                &&& !d.preview
                &&& d.slot_count == 48 && d.slot_dim == 256
            }),
            res.animations.is_default(),
            res.recents@.len() == 0,
            res.favorites@.len() == 0,
            res.hotkey_toggle is None,
            res.hotkey_repeat is None,
            res.color_scheme is None,
            res.safe_mode is None,
    {
        let d = DaemonArgs::default();
        StoredConfig {
            input: d.input,
            output: d.output,
            width: d.width,
            height: d.height,
            fps_num: d.fps_num,
            fps_den: d.fps_den,
            preview: d.preview,
            slot_count: d.slot_count,
            slot_dim: d.slot_dim,
            animations: AnimationConfig::default(),
            recents: Vec::new(),
            favorites: Vec::new(),
            hotkey_toggle: None,
            hotkey_repeat: None,
            color_scheme: None,
            safe_mode: None,
        }
    }
}

impl StoredConfig {
    /// The daemon settings this configuration holds.
    pub open spec fn daemon_args_spec(self) -> DaemonArgs {
        DaemonArgs {
            input: self.input,
            output: self.output,
            width: self.width,
            height: self.height,
            fps_num: self.fps_num,
            fps_den: self.fps_den,
            preview: self.preview,
            slot_count: self.slot_count,
            slot_dim: self.slot_dim,
        }
    }

    /// The configuration to persist for the given daemon settings,
    /// preferences and animations.
    pub fn from_state(args: &DaemonArgs, prefs: &UiPrefs, animations: &AnimationConfig) -> (res: Self)
        ensures
            res.daemon_args_spec() == *args,
            res.animations.same_as(*animations),
            res.recents@ == prefs.recents@,
            res.favorites@ == prefs.favorites@,
            res.hotkey_toggle == prefs.hotkey_toggle,
            res.hotkey_repeat == prefs.hotkey_repeat,
            res.color_scheme == Some(prefs.color_scheme),
            res.safe_mode == Some(prefs.safe_mode),
    {
        let a = args.duplicate();
        let p = prefs.clone_fields();
        StoredConfig {
            input: a.input,
            output: a.output,
            width: a.width,
            height: a.height,
            fps_num: a.fps_num,
            fps_den: a.fps_den,
            preview: a.preview,
            slot_count: a.slot_count,
            slot_dim: a.slot_dim,
            animations: animations.clone(),
            recents: p.recents,
            favorites: p.favorites,
            hotkey_toggle: p.hotkey_toggle,
            hotkey_repeat: p.hotkey_repeat,
            color_scheme: Some(p.color_scheme),
            safe_mode: Some(p.safe_mode),
        }
    }
}

impl vstd::std_specs::convert::FromSpecImpl<StoredConfig> for DaemonArgs {
    open spec fn obeys_from_spec() -> bool {
        true
    }

    open spec fn from_spec(s: StoredConfig) -> DaemonArgs {
        s.daemon_args_spec()
    }
}

impl From<StoredConfig> for DaemonArgs {
    fn from(s: StoredConfig) -> (res: DaemonArgs) {
        DaemonArgs {
            input: s.input,
            output: s.output,
            width: s.width,
            height: s.height,
            fps_num: s.fps_num,
            fps_den: s.fps_den,
            preview: s.preview,
            slot_count: s.slot_count,
            slot_dim: s.slot_dim,
        }
    }
}

/// The path a file is first written to before it is renamed over `path`:
/// `path` with `".tmp"` appended (not replacing its extension).
pub fn with_tmp_extension(path: &str) -> (res: String)
    ensures
        res@ == path@ + ".tmp"@,
{
    let mut s = path.to_owned();
    s.append(".tmp");
    s
}

/// Where the settings are stored: `gobcam/config.json` under
/// `$XDG_CONFIG_HOME`, else under `$HOME/.config`; `None` when neither
/// variable is set.
pub fn config_file(xdg_config_home: Option<&str>, home: Option<&str>) -> (res: Option<String>)
    ensures
        match (xdg_config_home, home) {
            (Some(x), _) => res matches Some(r) && r@ == join_path(
                join_path(x@, "gobcam"@),
                "config.json"@,
            ),
            (None, Some(h)) => res matches Some(r) && r@ == join_path(
                join_path(join_path(h@, ".config"@), "gobcam"@),
                "config.json"@,
            ),
            (None, None) => res is None,
        },
{
    let base = match xdg_config_home {
        Some(x) => x.to_owned(),
        None => match home {
            Some(h) => join(h, ".config"),
            None => {
                return None;
            },
        },
    };
    Some(join(join(base.as_str(), "gobcam").as_str(), "config.json"))
}

/// The daemon socket: the one given, else `gobcam.sock` under
/// `$XDG_RUNTIME_DIR`; `None` when neither is there.
pub fn socket_path(explicit: Option<String>, xdg_runtime_dir: Option<&str>) -> (res: Option<String>)
    ensures
        match explicit {
            Some(e) => res == Some(e),
            None => match xdg_runtime_dir {
                Some(d) => res matches Some(r) && r@ == join_path(d@, "gobcam.sock"@),
                None => res is None,
            },
        },
{
    match explicit {
        Some(e) => Some(e),
        None => match xdg_runtime_dir {
            Some(d) => Some(join(d, "gobcam.sock")),
            None => None,
        },
    }
}

} // verus!
