use gobcam::bootstrap::{claim_next, SyncProgress};
use gobcam::daemon::{
    daemon_command_args, shutdown_deadline, shutdown_step, startup_begin, startup_step,
    ChildState, DaemonArgs, ShutdownStep, StartupPhase, StartupStep,
};
use gobcam::loopback::{
    classify_lowered, classify_rmmod_failure, modprobe_args, modprobe_failure, rmmod_args, rmmod_outcome,
    setup_failure_message, RmmodFailure,
};
use gobcam::pipeline::{
    canvas, description, io_mode_token, output_caps, stdin_role, Cli, OutputCaps, StdinRole,
    COMPOSITOR_BLEND_FORMAT, SINK_INPUT_FORMAT,
};
use gobcam::reactions::{
    all_slots_busy, is_blank_line, malformed_command, sync_status_response, trigger_from_line,
    trigger_response,
};
use gobcam::protocol::Response;

fn cli() -> Cli {
    Cli {
        input: "/dev/video0".into(),
        input_io_mode: "auto".into(),
        output: "/dev/video10".into(),
        overlay: None,
        cache_root: None,
        triggers_stdin: false,
        socket: None,
        profile_log: None,
        exit_on_stdin_eof: false,
        width: 1280,
        height: 720,
        fps_num: 30,
        fps_den: 1,
        slot_count: 48,
        slot_dim: 256,
        preview: false,
    }
}

#[test]
fn formats_are_known_constants() {
    assert_eq!(COMPOSITOR_BLEND_FORMAT, "AYUV");
    assert_eq!(SINK_INPUT_FORMAT, "I420");
}

#[test]
fn description_contains_compositor_and_named_sink() {
    let desc = description(&cli()).unwrap();
    assert!(desc.contains("compositor name=mix"), "desc was: {desc}");
    assert!(desc.contains("v4l2sink name=sink"), "desc was: {desc}");
}

#[test]
fn description_is_the_full_graph() {
    let desc = description(&cli()).unwrap();
    assert_eq!(
        desc,
        "v4l2src device=/dev/video0 io-mode=0 ! video/x-raw,width=1280,height=720,framerate=30/1 ! \
         queue ! videoconvert ! compositor name=mix background=black ignore-inactive-pads=true ! \
         video/x-raw,format=AYUV,width=1280,height=720 ! videoconvert ! \
         video/x-raw,format=I420,width=1280,height=720 ! v4l2sink name=sink device=/dev/video10 sync=false"
    );
    let mut c = cli();
    c.preview = true;
    c.input_io_mode = "rw".into();
    let desc = description(&c).unwrap();
    assert!(desc.contains("io-mode=1"));
    assert!(desc.contains("tee name=split"));
    assert!(desc.contains("appsink name=preview"));
}

#[test]
fn io_modes() {
    assert_eq!(io_mode_token("auto"), Ok("0"));
    assert_eq!(io_mode_token("dmabuf-import"), Ok("5"));
    assert_eq!(
        io_mode_token("bogus"),
        Err("--input-io-mode must be one of auto|rw|mmap|userptr|dmabuf|dmabuf-import, got: bogus"
            .to_string())
    );
    let mut c = cli();
    c.input_io_mode = "Auto".into();
    assert!(description(&c).is_err());
}

#[test]
fn caps_and_canvas_saturate() {
    let mut c = cli();
    assert_eq!(output_caps(&c), OutputCaps { width: 1280, height: 720, fps_num: 30, fps_den: 1 });
    assert_eq!(canvas(&c), (1280, 720));
    c.width = u32::MAX;
    c.fps_den = 3_000_000_000;
    assert_eq!(output_caps(&c).width, i32::MAX);
    assert_eq!(output_caps(&c).fps_den, i32::MAX);
    assert_eq!(canvas(&c), (1280, 720));
    c.height = 2_147_483_648;
    assert_eq!(canvas(&c), (1280, 720));
    c.height = 2_147_483_647;
    assert_eq!(canvas(&c), (1280, i32::MAX));
}

#[test]
fn stdin_roles() {
    let mut c = cli();
    assert_eq!(stdin_role(&c), StdinRole::Ignored);
    c.exit_on_stdin_eof = true;
    assert_eq!(stdin_role(&c), StdinRole::Watchdog);
    c.triggers_stdin = true;
    assert_eq!(stdin_role(&c), StdinRole::Triggers);
}

#[test]
fn daemon_arguments() {
    let mut a = DaemonArgs::default();
    let argv = daemon_command_args("/run/g.sock", &a);
    assert_eq!(
        argv,
        vec![
            "--socket", "/run/g.sock", "--input", "/dev/video0", "--output", "/dev/video10",
            "--width", "1280", "--height", "720", "--fps-num", "30", "--fps-den", "1",
            "--slot-count", "48", "--slot-dim", "256", "--exit-on-stdin-eof",
        ]
    );
    a.preview = true;
    let argv = daemon_command_args("/s", &a);
    assert_eq!(argv.last().map(String::as_str), Some("--preview"));
    assert_eq!(argv.len(), 20);
}

#[test]
fn startup_waits_for_socket_then_health_check() {
    let p = startup_begin(1000);
    assert_eq!(p, StartupPhase::AwaitSocket { deadline: 11_000 });
    assert_eq!(
        startup_step(p, 1050, false, None, "/s"),
        StartupStep::Wait { phase: p, sleep_ms: 50 }
    );
    let next = startup_step(p, 1100, true, None, "/s");
    assert_eq!(
        next,
        StartupStep::Wait { phase: StartupPhase::HealthCheck { deadline: 1900 }, sleep_ms: 0 }
    );
    let h = StartupPhase::HealthCheck { deadline: 1900 };
    assert_eq!(startup_step(h, 1850, false, None, "/s"), StartupStep::Wait { phase: h, sleep_ms: 50 });
    assert_eq!(startup_step(h, 1900, false, Some("exit status: 1"), "/s"), StartupStep::Ready);
}

#[test]
fn startup_failures() {
    let p = StartupPhase::AwaitSocket { deadline: 500 };
    assert_eq!(
        startup_step(p, 10, false, Some("exit status: 2"), "/run/g.sock"),
        StartupStep::Failed(
            "daemon exited early with exit status: 2 before binding socket /run/g.sock".to_string()
        )
    );
    assert_eq!(
        startup_step(p, 500, false, None, "/run/g.sock"),
        StartupStep::Failed("daemon did not bind /run/g.sock within 10s".to_string())
    );
    // A bound socket wins over an exit in the same poll.
    assert!(matches!(
        startup_step(p, 10, true, Some("exit status: 2"), "/s"),
        StartupStep::Wait { .. }
    ));
    let h = StartupPhase::HealthCheck { deadline: 900 };
    match startup_step(h, 100, false, Some("exit status: 1"), "/s") {
        StartupStep::Failed(m) => {
            assert!(m.starts_with("daemon exited with exit status: 1 during pipeline startup."));
            assert!(m.ends_with("for the exact GStreamer error."));
        },
        other => panic!("unexpected {other:?}"),
    }
}

#[test]
fn shutdown_waits_then_kills() {
    let d = shutdown_deadline(100);
    assert_eq!(d, 2100);
    assert_eq!(shutdown_step(d, 150, ChildState::Running), ShutdownStep::Wait);
    assert_eq!(shutdown_step(d, 2100, ChildState::Running), ShutdownStep::Kill);
    assert_eq!(shutdown_step(d, 150, ChildState::Exited), ShutdownStep::Done);
    assert_eq!(shutdown_step(d, 9999, ChildState::Unknown), ShutdownStep::Done);
    assert_eq!(shutdown_deadline(u64::MAX), u64::MAX);
}

#[test]
fn rmmod_failures_are_classified() {
    assert_eq!(classify_rmmod_failure("sudo: a PASSWORD is required"), RmmodFailure::NeedsPassword);
    assert_eq!(classify_rmmod_failure("rmmod: ERROR: Module v4l2loopback is in use"), RmmodFailure::InUse);
    assert_eq!(classify_rmmod_failure("Device or Resource Busy"), RmmodFailure::InUse);
    assert_eq!(
        classify_rmmod_failure("rmmod: ERROR: Module v4l2loopback is not currently loaded"),
        RmmodFailure::NotLoaded
    );
    assert_eq!(classify_rmmod_failure("weird"), RmmodFailure::Other);
}

#[test]
fn rmmod_outcomes() {
    assert_eq!(rmmod_outcome("Module x IS NOT CURRENTLY LOADED"), Ok(()));
    assert_eq!(rmmod_outcome("  odd failure \n"), Err("rmmod v4l2loopback failed: odd failure".to_string()));
    assert!(rmmod_outcome("password").unwrap_err().starts_with("auto-reset needs passwordless sudo."));
    assert!(rmmod_outcome("in use").unwrap_err().starts_with("v4l2loopback is in use"));
    assert_eq!(modprobe_failure(" bad\n"), "modprobe v4l2loopback failed: bad");
}

#[test]
fn loopback_command_lines() {
    assert_eq!(rmmod_args("/usr/sbin/rmmod"), vec!["-n", "/usr/sbin/rmmod", "v4l2loopback"]);
    assert_eq!(
        modprobe_args("/sbin/modprobe"),
        vec![
            "-n", "/sbin/modprobe", "v4l2loopback", "devices=1", "video_nr=10",
            "card_label=Gobcam", "exclusive_caps=1",
        ]
    );
}

#[test]
fn setup_failures() {
    assert_eq!(setup_failure_message("exit status: 1", " denied \n"), "denied");
    assert_eq!(
        setup_failure_message("exit status: 126", "  "),
        "gobcam-setup exited with exit status: 126 (no stderr \u{2014} pkexec dialog may have been cancelled)"
    );
}

#[test]
fn prefetch_progress() {
    let mut p = SyncProgress::new(2);
    assert_eq!(p.snapshot(), (0, 2, false));
    p.record_fetched();
    assert!(!p.finish_if_done());
    p.record_fetched();
    assert!(p.finish_if_done());
    assert_eq!(p.snapshot(), (2, 2, true));
    let empty = SyncProgress::new(0);
    assert_eq!(empty.snapshot(), (0, 0, false));
}

#[test]
fn work_is_handed_out_once() {
    let mut next = 0usize;
    assert_eq!(claim_next(&mut next, 2), Some(0));
    assert_eq!(claim_next(&mut next, 2), Some(1));
    assert_eq!(claim_next(&mut next, 2), None);
    assert_eq!(next, 3);
}

#[test]
fn stdin_and_ipc_lines() {
    assert_eq!(trigger_from_line("  fire \n"), Some("fire".to_string()));
    assert_eq!(trigger_from_line(" \t"), None);
    assert!(is_blank_line("   "));
    assert!(!is_blank_line(" x "));
}

#[test]
fn replies() {
    assert_eq!(
        malformed_command("expected value at line 1 column 1"),
        Response::Error { message: "malformed command: expected value at line 1 column 1".to_string() }
    );
    assert_eq!(trigger_response(Ok(())), Response::Accepted);
    assert_eq!(
        trigger_response(Err("emoji 'x' not found".to_string())),
        Response::Error { message: "emoji 'x' not found".to_string() }
    );
    assert_eq!(
        sync_status_response((1, 5, false)),
        Response::SyncStatus { fetched: 1, total: 5, complete: false }
    );
    assert_eq!(all_slots_busy(48), "all 48 slots busy");
}

#[test]
fn lowered_rmmod_errors_are_classified_in_order() {
    assert_eq!(classify_lowered("sudo: a password is required"), RmmodFailure::NeedsPassword);
    assert_eq!(classify_lowered("password? module is in use"), RmmodFailure::NeedsPassword);
    assert_eq!(classify_lowered("rmmod: error: module v4l2loopback is in use"), RmmodFailure::InUse);
    assert_eq!(classify_lowered("device or resource busy"), RmmodFailure::InUse);
    assert_eq!(
        classify_lowered("rmmod: error: module v4l2loopback is not currently loaded"),
        RmmodFailure::NotLoaded
    );
    // The text is taken as already lowered.
    assert_eq!(classify_lowered("Module Is In Use"), RmmodFailure::Other);
    assert_eq!(classify_lowered(""), RmmodFailure::Other);
}
