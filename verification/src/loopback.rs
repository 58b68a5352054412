//! Recovery of a v4l2loopback device stuck at an old mode: the commands
//! that reload the kernel module, and what their failures mean.

use vstd::prelude::*;

use crate::text::{chars_of, find_pat, find_pat_from, string_from, trim, trim_chars};

verus! {

/// `str::to_lowercase`: the Unicode lower-case mapping of `s`.
pub uninterp spec fn lowercase(s: Seq<char>) -> Seq<char>;

/// `str::to_lowercase`, named by `lowercase`.
#[verifier::external_body]
fn to_lowercase(s: &str) -> (res: String)
    ensures
        res@ == lowercase(s@),
{
    s.to_lowercase()
}

pub open spec fn mentions(s: Seq<char>, p: Seq<char>) -> bool {
    find_pat_from(s, p, 0) >= 0
}

fn mentions_exec(s: &[char], p: &str) -> (res: bool)
    ensures
        res == mentions(s@, p@),
{
    find_pat(s, &chars_of(p), 0).is_some()
}

/// Why `rmmod v4l2loopback` failed, read from its standard error.
#[derive(Debug, Clone, Copy, PartialEq, Eq, Structural)]
pub enum RmmodFailure {
    /// sudo wanted a password.
    NeedsPassword,
    /// A consumer holds the device.
    InUse,
    /// The module was not loaded; there is nothing to remove.
    NotLoaded,
    /// Anything else.
    Other,
}

/// The failure that lower-cased `rmmod` error text reports.
pub open spec fn lowered_failure_kind(lower: Seq<char>) -> RmmodFailure {
    if mentions(lower, "password"@) {
        RmmodFailure::NeedsPassword
    } else if mentions(lower, "in use"@) || mentions(lower, "resource busy"@) {
        RmmodFailure::InUse
    } else if mentions(lower, "is not currently loaded"@) {
        RmmodFailure::NotLoaded
    } else {
        RmmodFailure::Other
    }
}

pub open spec fn rmmod_failure_kind(stderr: Seq<char>) -> RmmodFailure {
    lowered_failure_kind(lowercase(stderr))
}

/// Classifies a failed `rmmod` by the (case-insensitive) text of its
/// standard error.
pub fn classify_rmmod_failure(stderr: &str) -> (res: RmmodFailure)
    ensures
        res == rmmod_failure_kind(stderr@),
{
    classify_lowered(to_lowercase(stderr).as_str())
}

/// Classifies a failed `rmmod` by its standard error already in lower
/// case: a password prompt, a device in use or busy, a module that is
/// not loaded, or anything else, tested in that order.
pub fn classify_lowered(lower: &str) -> (res: RmmodFailure)
    ensures
        res == lowered_failure_kind(lower@),
{
    let lower = chars_of(lower);
    if mentions_exec(&lower, "password") {
        RmmodFailure::NeedsPassword
    } else if mentions_exec(&lower, "in use") || mentions_exec(&lower, "resource busy") {
        RmmodFailure::InUse
    } else if mentions_exec(&lower, "is not currently loaded") {
        RmmodFailure::NotLoaded
    } else {
        RmmodFailure::Other
    }
}

pub open spec fn rmmod_outcome_spec(stderr: Seq<char>) -> Result<(), Seq<char>> {
    match rmmod_failure_kind(stderr) {
        RmmodFailure::NeedsPassword => Err(
            "auto-reset needs passwordless sudo. Run `just install-loopback` to install the sudoers drop-in (one-time)."@,
        ),
        RmmodFailure::InUse => Err(
            "v4l2loopback is in use by another process. Close any active video consumers (Teams, view-loopback, etc.) and try again."@,
        ),
        RmmodFailure::NotLoaded => Ok(()),
        RmmodFailure::Other => Err("rmmod v4l2loopback failed: "@ + trim(stderr)),
    }
}

/// What a failed `rmmod` means for the reset: a module that was not
/// loaded lets it go on to `modprobe`; anything else stops it with a
/// message for the user.
pub fn rmmod_outcome(stderr: &str) -> (res: Result<(), String>)
    ensures
        match res {
            Ok(()) => rmmod_outcome_spec(stderr@) == Ok::<(), Seq<char>>(()),
            Err(e) => rmmod_outcome_spec(stderr@) == Err::<(), Seq<char>>(e@),
        },
{
    match classify_rmmod_failure(stderr) {
        RmmodFailure::NeedsPassword => Err(
            "auto-reset needs passwordless sudo. Run `just install-loopback` to install the sudoers drop-in (one-time)."
                .to_owned(),
        ),
        RmmodFailure::InUse => Err(
            "v4l2loopback is in use by another process. Close any active video consumers (Teams, view-loopback, etc.) and try again."
                .to_owned(),
        ),
        RmmodFailure::NotLoaded => Ok(()),
        RmmodFailure::Other => {
            let mut m = "rmmod v4l2loopback failed: ".to_owned();
            m.append(string_from(&trim_chars(&chars_of(stderr))).as_str());
            Err(m)
        },
    }
}

/// The message of a failed `modprobe`.
pub fn modprobe_failure(stderr: &str) -> (res: String)
    ensures
        res@ == "modprobe v4l2loopback failed: "@ + trim(stderr@),
{
    let mut m = "modprobe v4l2loopback failed: ".to_owned();
    m.append(string_from(&trim_chars(&chars_of(stderr))).as_str());
    m
}

/// `sudo` arguments that remove the module with the `rmmod` at `path`.
pub fn rmmod_args(path: &str) -> (res: Vec<String>)
    ensures
        res@.map_values(|s: String| s@) == seq!["-n"@, path@, "v4l2loopback"@],
{
    let mut v: Vec<String> = Vec::new();
    v.push("-n".to_owned());
    v.push(path.to_owned());
    v.push("v4l2loopback".to_owned());
    assert(v@.map_values(|s: String| s@) =~= seq!["-n"@, path@, "v4l2loopback"@]);
    v
}

/// `sudo` arguments that load the module with the `modprobe` at `path`:
/// one device, `/dev/video10`, labelled "Gobcam", with exclusive caps
/// (Chromium-based apps list the device only then).
pub fn modprobe_args(path: &str) -> (res: Vec<String>)
    ensures
        res@.map_values(|s: String| s@) == seq![
            "-n"@,
            path@,
            "v4l2loopback"@,
            "devices=1"@,
            "video_nr=10"@,
            "card_label=Gobcam"@,
            "exclusive_caps=1"@,
        ],
{
    let mut v: Vec<String> = Vec::new();
    v.push("-n".to_owned());
    v.push(path.to_owned());
    v.push("v4l2loopback".to_owned());
    v.push("devices=1".to_owned());
    v.push("video_nr=10".to_owned());
    v.push("card_label=Gobcam".to_owned());
    v.push("exclusive_caps=1".to_owned());
    assert(v@.map_values(|s: String| s@) =~= seq![
        "-n"@,
        path@,
        "v4l2loopback"@,
        "devices=1"@,
        "video_nr=10"@,
        "card_label=Gobcam"@,
        "exclusive_caps=1"@,
    ]);
    v
}

/// The message of a failed setup script: its trimmed standard error, or
/// a note that the password dialog may have been cancelled when it wrote
/// nothing.
pub fn setup_failure_message(status: &str, stderr: &str) -> (res: String)
    ensures
        res@ == (if trim(stderr@).len() == 0 {
            "gobcam-setup exited with "@ + status@
                + " (no stderr \u{2014} pkexec dialog may have been cancelled)"@
        } else {
            trim(stderr@)
        }),
{
    let t = trim_chars(&chars_of(stderr));
    if t.len() == 0 {
        let mut m = "gobcam-setup exited with ".to_owned();
        m.append(status);
        m.append(" (no stderr \u{2014} pkexec dialog may have been cancelled)");
        m
    } else {
        string_from(&t)
    }
}

/// Where `sudo` is told to find a module tool: the sudoers drop-in
/// names absolute paths, looked for in this order.
pub fn tool_candidates(name: &str) -> (res: Vec<String>)
    ensures
        res@.map_values(|s: String| s@) == seq![
            "/usr/bin/"@ + name@,
            "/usr/sbin/"@ + name@,
            "/sbin/"@ + name@,
        ],
{
    let mut v: Vec<String> = Vec::new();
    let mut a = "/usr/bin/".to_owned();
    a.append(name);
    v.push(a);
    let mut b = "/usr/sbin/".to_owned();
    b.append(name);
    v.push(b);
    let mut c = "/sbin/".to_owned();
    c.append(name);
    v.push(c);
    assert(v@.map_values(|s: String| s@) =~= seq![
        "/usr/bin/"@ + name@,
        "/usr/sbin/"@ + name@,
        "/sbin/"@ + name@,
    ]);
    v
}

/// The tool path to use: the first candidate that is a file
/// (`present[i]` tells whether candidate `i` is), else `/usr/bin/<name>`.
pub fn pick_tool(name: &str, present: &[bool]) -> (res: String)
    ensures
        res@ == (if present@.len() > 0 && present@[0] {
            "/usr/bin/"@ + name@
        } else if present@.len() > 1 && present@[1] {
            "/usr/sbin/"@ + name@
        } else if present@.len() > 2 && present@[2] {
            "/sbin/"@ + name@
        } else {
            "/usr/bin/"@ + name@
        }),
{
    let candidates = tool_candidates(name);
    let ghost c = candidates@.map_values(|s: String| s@);
    assert(c.len() == 3);
    assert(c[0] == candidates@[0]@ && c[1] == candidates@[1]@ && c[2] == candidates@[2]@);
    if present.len() > 0 && present[0] {
        candidates[0].clone()
    } else if present.len() > 1 && present[1] {
        candidates[1].clone()
    } else if present.len() > 2 && present[2] {
        candidates[2].clone()
    } else {
        candidates[0].clone()
    }
}

} // verus!
