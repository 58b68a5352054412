//! How the UI starts the pipeline daemon: the settings it spawns it
//! with and the command line those settings become.

use vstd::prelude::*;

use crate::text::{decimal, decimal_chars, string_from};

verus! {

/// Settings the daemon is spawned with; changing any of them needs a
/// respawn.
#[derive(Debug, Clone, PartialEq, Eq)]
pub struct DaemonArgs {
    pub input: String,
    pub output: String,
    pub width: u32,
    pub height: u32,
    pub fps_num: u32,
    pub fps_den: u32,
    pub preview: bool,
    /// Compositor pads are pre-allocated when the daemon builds its graph.
    pub slot_count: usize,
    pub slot_dim: u32,
}

impl DaemonArgs {
    pub open spec fn fields(self) -> (Seq<char>, Seq<char>, u32, u32, u32, u32, bool, usize, u32) {
        (
            self.input@,
            self.output@,
            self.width,
            self.height,
            self.fps_num,
            self.fps_den,
            self.preview,
            self.slot_count,
            self.slot_dim,
        )
    }

    /// A copy with the same fields.
    pub fn duplicate(&self) -> (res: Self)
        ensures
            res == *self,
    {
        DaemonArgs {
            input: self.input.clone(),
            output: self.output.clone(),
            width: self.width,
            height: self.height,
            fps_num: self.fps_num,
            fps_den: self.fps_den,
            preview: self.preview,
            slot_count: self.slot_count,
            slot_dim: self.slot_dim,
        }
    }
}

impl Default for DaemonArgs {
    /// `/dev/video0` into `/dev/video10` at 1280x720, 30 fps, no
    /// preview, 48 slots of 256 px.
    fn default() -> (res: Self)
        ensures
            res.input@ == "/dev/video0"@,
            res.output@ == "/dev/video10"@,
            res.width == 1280,
            res.height == 720,
            res.fps_num == 30,
            res.fps_den == 1,
            !res.preview,
            res.slot_count == 48,
            res.slot_dim == 256,
    {
        DaemonArgs {
            input: "/dev/video0".to_owned(),
            output: "/dev/video10".to_owned(),
            width: 1280,
            height: 720,
            fps_num: 30,
            fps_den: 1,
            preview: false,
            slot_count: 48,
            slot_dim: 256,
        }
    }
}

/// The daemon's command line (after the program name): the socket, the
/// devices, the mode, the slots, the stdin watchdog flag, and
/// `--preview` when asked for.
pub open spec fn daemon_argv(socket: Seq<char>, args: DaemonArgs) -> Seq<Seq<char>> {
    let base = seq![
        "--socket"@,
        socket,
        "--input"@,
        args.input@,
        "--output"@,
        args.output@,
        "--width"@,
        decimal(args.width as nat),
        "--height"@,
        decimal(args.height as nat),
        "--fps-num"@,
        decimal(args.fps_num as nat),
        "--fps-den"@,
        decimal(args.fps_den as nat),
        "--slot-count"@,
        decimal(args.slot_count as nat),
        "--slot-dim"@,
        decimal(args.slot_dim as nat),
        "--exit-on-stdin-eof"@,
    ];
    if args.preview {
        base.push("--preview"@)
    } else {
        base
    }
}

fn number_arg(n: u64) -> (res: String)
    ensures
        res@ == decimal(n as nat),
{
    string_from(&decimal_chars(n))
}

/// The arguments `gobcam-pipeline` is spawned with.
pub fn daemon_command_args(socket: &str, args: &DaemonArgs) -> (res: Vec<String>)
    ensures
        res@.map_values(|s: String| s@) == daemon_argv(socket@, *args),
{
    let mut v: Vec<String> = Vec::new();
    v.push("--socket".to_owned());
    v.push(socket.to_owned());
    v.push("--input".to_owned());
    v.push(args.input.clone());
    v.push("--output".to_owned());
    v.push(args.output.clone());
    v.push("--width".to_owned());
    v.push(number_arg(args.width as u64));
    v.push("--height".to_owned());
    v.push(number_arg(args.height as u64));
    v.push("--fps-num".to_owned());
    v.push(number_arg(args.fps_num as u64));
    v.push("--fps-den".to_owned());
    v.push(number_arg(args.fps_den as u64));
    v.push("--slot-count".to_owned());
    v.push(number_arg(args.slot_count as u64));
    v.push("--slot-dim".to_owned());
    v.push(number_arg(args.slot_dim as u64));
    v.push("--exit-on-stdin-eof".to_owned());
    if args.preview {
        v.push("--preview".to_owned());
    }
    assert(v@.map_values(|s: String| s@) =~= daemon_argv(socket@, *args));
    v
}

/// The daemon is spawned on the chosen devices and mode whatever the
/// preview choice: the camera `args.input` follows `--input`, the
/// loopback `args.output` follows `--output`, each number follows its
/// flag, and asking for a preview only appends `--preview` to the line
/// that is spawned without one.
pub proof fn law_spawn_line_names_the_chosen_devices(socket: Seq<char>, args: DaemonArgs)
    ensures
        ({
            let v = daemon_argv(socket, args);
            &&& v[0] == "--socket"@ && v[1] == socket
            &&& v[2] == "--input"@ && v[3] == args.input@
            &&& v[4] == "--output"@ && v[5] == args.output@
            &&& v[6] == "--width"@ && v[7] == decimal(args.width as nat)
            &&& v[8] == "--height"@ && v[9] == decimal(args.height as nat)
            &&& v[10] == "--fps-num"@ && v[11] == decimal(args.fps_num as nat)
            &&& v[12] == "--fps-den"@ && v[13] == decimal(args.fps_den as nat)
            &&& v[14] == "--slot-count"@ && v[15] == decimal(args.slot_count as nat)
            &&& v[16] == "--slot-dim"@ && v[17] == decimal(args.slot_dim as nat)
            &&& v[18] == "--exit-on-stdin-eof"@
        }),
        daemon_argv(socket, args).len() == (if args.preview { 20int } else { 19int }),
        args.preview ==> daemon_argv(socket, args) == daemon_argv(
            socket,
            DaemonArgs { preview: false, ..args },
        ).push("--preview"@),
{
}

/// How long a freshly spawned daemon has to bind its socket, in ms.
pub const SOCKET_WAIT_MS: u64 = 10000;

/// Pause between two polls, in ms.
pub const POLL_MS: u64 = 50;

/// How long after binding the daemon may still fail preroll (a camera
/// mode the device rejects), in ms.
pub const POST_BIND_HEALTH_CHECK_MS: u64 = 800;

/// How long a daemon has to exit after its stdin closes before it is
/// killed, in ms.
pub const SHUTDOWN_GRACE_MS: u64 = 2000;

/// Where the wait for a freshly spawned daemon stands. Deadlines are in
/// ms on the caller's monotonic clock.
#[derive(Debug, Clone, Copy, PartialEq, Eq, Structural)]
pub enum StartupPhase {
    /// Waiting for the socket to accept a connection.
    AwaitSocket { deadline: u64 },
    /// The socket is up; the pipeline may still fail to start.
    HealthCheck { deadline: u64 },
}

/// What the supervisor does after one poll of a starting daemon.
#[derive(Debug, Clone, PartialEq, Eq)]
pub enum StartupStep {
    /// Poll again after `sleep_ms`, in `phase`.
    Wait { phase: StartupPhase, sleep_ms: u64 },
    /// The daemon is up and serving.
    Ready,
    /// The daemon failed to start; the message says how.
    Failed(String),
}

pub open spec fn saturating_add(a: u64, b: u64) -> u64 {
    if a + b <= u64::MAX {
        (a + b) as u64
    } else {
        u64::MAX
    }
}

/// The phase right after spawning at time `now`.
pub fn startup_begin(now: u64) -> (res: StartupPhase)
    ensures
        res == (StartupPhase::AwaitSocket { deadline: saturating_add(now, SOCKET_WAIT_MS) }),
{
    StartupPhase::AwaitSocket { deadline: now.saturating_add(SOCKET_WAIT_MS) }
}

pub open spec fn exited_early_message(status: Seq<char>, socket: Seq<char>) -> Seq<char> {
    "daemon exited early with "@ + status + " before binding socket "@ + socket
}

pub open spec fn bind_timeout_message(socket: Seq<char>) -> Seq<char> {
    "daemon did not bind "@ + socket + " within 10s"@
}

pub open spec fn preroll_failed_message(status: Seq<char>) -> Seq<char> {
    "daemon exited with "@ + status
        + " during pipeline startup. Common cause: the requested camera mode is unsupported, or the loopback (`/dev/video10`) is currently locked by an active consumer (close `view-loopback` / Teams and try again, or run `just reset-loopback`). See the daemon's stderr above for the exact GStreamer error."@
}

/// One poll of a starting daemon at time `now`: whether its socket
/// accepts a connection (looked at only while waiting for it) and, if
/// the child has exited, its exit status as text. While waiting for the
/// socket, a bound socket wins over an exit and an exit over the
/// deadline; once it is bound, the daemon that survives the health
/// check is ready.
pub fn startup_step(
    phase: StartupPhase,
    now: u64,
    socket_up: bool,
    exited: Option<&str>,
    socket: &str,
) -> (res: StartupStep)
    ensures
        match phase {
            StartupPhase::AwaitSocket { deadline } => if socket_up {
                res == (StartupStep::Wait {
                    phase: StartupPhase::HealthCheck {
                        deadline: saturating_add(now, POST_BIND_HEALTH_CHECK_MS),
                    },
                    sleep_ms: 0,
                })
            } else if exited is Some {
                res matches StartupStep::Failed(m) && m@ == exited_early_message(
                    exited->0@,
                    socket@,
                )
            } else if now >= deadline {
                res matches StartupStep::Failed(m) && m@ == bind_timeout_message(socket@)
            } else {
                res == (StartupStep::Wait { phase, sleep_ms: POLL_MS })
            },
            StartupPhase::HealthCheck { deadline } => if now >= deadline {
                res == StartupStep::Ready
            } else if exited is Some {
                res matches StartupStep::Failed(m) && m@ == preroll_failed_message(exited->0@)
            } else {
                res == (StartupStep::Wait { phase, sleep_ms: POLL_MS })
            },
        },
{
    match phase {
        StartupPhase::AwaitSocket { deadline } => {
            if socket_up {
                StartupStep::Wait {
                    phase: StartupPhase::HealthCheck {
                        deadline: now.saturating_add(POST_BIND_HEALTH_CHECK_MS),
                    },
                    sleep_ms: 0,
                }
            } else if let Some(status) = exited {
                let mut m = "daemon exited early with ".to_owned();
                m.append(status);
                m.append(" before binding socket ");
                m.append(socket);
                StartupStep::Failed(m)
            } else if now >= deadline {
                let mut m = "daemon did not bind ".to_owned();
                m.append(socket);
                m.append(" within 10s");
                StartupStep::Failed(m)
            } else {
                StartupStep::Wait { phase, sleep_ms: POLL_MS }
            }
        },
        StartupPhase::HealthCheck { deadline } => {
            if now >= deadline {
                StartupStep::Ready
            } else if let Some(status) = exited {
                let mut m = "daemon exited with ".to_owned();
                m.append(status);
                m.append(
                    " during pipeline startup. Common cause: the requested camera mode is unsupported, or the loopback (`/dev/video10`) is currently locked by an active consumer (close `view-loopback` / Teams and try again, or run `just reset-loopback`). See the daemon's stderr above for the exact GStreamer error.",
                );
                StartupStep::Failed(m)
            } else {
                StartupStep::Wait { phase, sleep_ms: POLL_MS }
            }
        },
    }
}

/// What waiting on the child reported.
#[derive(Debug, Clone, Copy, PartialEq, Eq, Structural)]
pub enum ChildState {
    Exited,
    Running,
    /// Waiting on the child failed.
    Unknown,
}

/// What the supervisor does while shutting a daemon down.
#[derive(Debug, Clone, Copy, PartialEq, Eq, Structural)]
pub enum ShutdownStep {
    /// Nothing more to do: the daemon exited, or cannot be waited on.
    Done,
    /// The grace period is over: kill the daemon and reap it.
    Kill,
    /// Poll again after `POLL_MS`.
    Wait,
}

/// The deadline for a daemon whose stdin closed at `now`.
pub fn shutdown_deadline(now: u64) -> (res: u64)
    ensures
        res == saturating_add(now, SHUTDOWN_GRACE_MS),
{
    now.saturating_add(SHUTDOWN_GRACE_MS)
}

/// One poll of a daemon shutting down: an exited daemon, or one that
/// cannot be waited on, is done with; a running one is given until the
/// deadline and then killed.
pub fn shutdown_step(deadline: u64, now: u64, child: ChildState) -> (res: ShutdownStep)
    ensures
        res == (match child {
            ChildState::Exited => ShutdownStep::Done,
            ChildState::Unknown => ShutdownStep::Done,
            ChildState::Running => if now >= deadline {
                ShutdownStep::Kill
            } else {
                ShutdownStep::Wait
            },
        }),
{
    match child {
        ChildState::Exited => ShutdownStep::Done,
        ChildState::Unknown => ShutdownStep::Done,
        ChildState::Running => if now >= deadline {
            ShutdownStep::Kill
        } else {
            ShutdownStep::Wait
        },
    }
}

} // verus!
