use gobcam::commands::{
    respawn_next, Respawn, RespawnAction,
    current_settings, expect_emoji_list, expect_input_list, expect_ok, expect_preview_url,
    expect_sync_status, normalize_hotkey, prefs_snapshot, unexpected_response, update_args,
    AppliedSettings, SyncStatusInfo,
};
use gobcam::config::{default_slot_count, default_slot_dim, with_tmp_extension, StoredConfig};
use gobcam::daemon::DaemonArgs;
use gobcam::hotkeys::{repeat_last, RepeatAction};
use gobcam::prefs::{UiPrefs, RECENTS_LIMIT};
use gobcam::protocol::{AnimationConfig, EmojiInfo, InputDeviceInfo, Mode, Response};
use gobcam::reply_text::render_response;

fn ids(v: &[&str]) -> Vec<String> {
    v.iter().map(|s| s.to_string()).collect()
}

#[test]
fn record_moves_id_to_front() {
    let mut p = UiPrefs::default();
    assert!(p.record("fire"));
    assert!(p.record("tada"));
    assert!(p.record("fire"));
    assert_eq!(p.recents, ids(&["fire", "tada"]));
    assert_eq!(p.last(), Some("fire"));
}

#[test]
fn record_twice_changes_nothing() {
    let mut p = UiPrefs::default();
    assert!(p.record("fire"));
    assert!(!p.record("fire"));
    assert_eq!(p.recents, ids(&["fire"]));
}

#[test]
fn recents_are_capped() {
    let mut p = UiPrefs::default();
    for i in 0..20 {
        p.record(&format!("e{i}"));
    }
    assert_eq!(p.recents.len(), RECENTS_LIMIT);
    assert_eq!(p.recents[0], "e19");
    assert_eq!(p.recents[RECENTS_LIMIT - 1], "e8");
}

#[test]
fn toggle_favorite_twice_restores() {
    let mut p = UiPrefs::default();
    p.favorites = ids(&["a", "b"]);
    assert!(p.toggle_favorite("c"));
    assert_eq!(p.favorites, ids(&["a", "b", "c"]));
    assert!(!p.toggle_favorite("c"));
    assert_eq!(p.favorites, ids(&["a", "b"]));
    assert!(!p.toggle_favorite("a"));
    assert_eq!(p.favorites, ids(&["b"]));
}

#[test]
fn prefs_defaults() {
    let p = UiPrefs::default();
    assert!(p.recents.is_empty());
    assert_eq!(p.last(), None);
    assert_eq!(p.color_scheme, "dark");
    assert!(!p.safe_mode);
}

#[test]
fn prefs_from_stored_fills_defaults_and_caps_recents() {
    let mut s = StoredConfig::default();
    s.recents = (0..15).map(|i| format!("r{i}")).collect();
    s.favorites = ids(&["x"]);
    s.hotkey_toggle = Some("Ctrl+Space".to_string());
    let p = UiPrefs::from_stored(&s);
    assert_eq!(p.recents.len(), 12);
    assert_eq!(p.recents[11], "r11");
    assert_eq!(p.favorites, ids(&["x"]));
    assert_eq!(p.hotkey_toggle.as_deref(), Some("Ctrl+Space"));
    assert_eq!(p.hotkey_repeat, None);
    assert_eq!(p.color_scheme, "dark");
    assert!(!p.safe_mode);
    s.color_scheme = Some("light dark".to_string());
    s.safe_mode = Some(true);
    let p = UiPrefs::from_stored(&s);
    assert_eq!(p.color_scheme, "light dark");
    assert!(p.safe_mode);
}

#[test]
fn stored_config_defaults() {
    let s = StoredConfig::default();
    assert_eq!(s.input, "/dev/video0");
    assert_eq!(s.output, "/dev/video10");
    assert_eq!((s.width, s.height, s.fps_num, s.fps_den), (1280, 720, 30, 1));
    assert_eq!((s.slot_count, s.slot_dim), (48, 256));
    assert_eq!(default_slot_count(), 48);
    assert_eq!(default_slot_dim(), 256);
    assert_eq!(s.animations.lifetime_ms, 5000);
    assert!(s.color_scheme.is_none() && s.safe_mode.is_none());
}

#[test]
fn stored_config_round_trips_state() {
    let mut args = DaemonArgs::default();
    args.input = "/dev/video2".to_string();
    args.preview = true;
    let mut prefs = UiPrefs::default();
    prefs.record("fire");
    prefs.safe_mode = true;
    let anim = AnimationConfig { max_concurrent: 7, ..AnimationConfig::default() };
    let s = StoredConfig::from_state(&args, &prefs, &anim);
    assert_eq!(s.recents, ids(&["fire"]));
    assert_eq!(s.color_scheme.as_deref(), Some("dark"));
    assert_eq!(s.safe_mode, Some(true));
    assert_eq!(s.animations.max_concurrent, 7);
    let back = UiPrefs::from_stored(&s);
    assert_eq!(back.recents, prefs.recents);
    assert!(back.safe_mode);
    let back_args: DaemonArgs = s.into();
    assert_eq!(back_args, args);
}

#[test]
fn tmp_path_appends_suffix() {
    assert_eq!(with_tmp_extension("/x/config.json"), "/x/config.json.tmp");
}

#[test]
fn expect_helpers_pass_errors_through() {
    let err = || Response::Error { message: "boom".to_string() };
    assert_eq!(expect_ok(Response::Accepted), Ok(()));
    assert_eq!(expect_ok(err()), Err("boom".to_string()));
    assert_eq!(expect_emoji_list(err()), Err("boom".to_string()));
    assert_eq!(expect_sync_status(err()), Err("boom".to_string()));
    assert_eq!(expect_preview_url(err()), Err("boom".to_string()));
    assert_eq!(expect_input_list(err()), Err("boom".to_string()));
}

#[test]
fn expect_helpers_take_their_reply() {
    assert_eq!(expect_emoji_list(Response::EmojiList { items: vec![] }), Ok(vec![]));
    assert_eq!(
        expect_sync_status(Response::SyncStatus { fetched: 3, total: 9, complete: false }),
        Ok(SyncStatusInfo { fetched: 3, total: 9, complete: false })
    );
    assert_eq!(
        expect_preview_url(Response::PreviewUrl { url: Some("http://127.0.0.1:1/".to_string()) }),
        Ok(Some("http://127.0.0.1:1/".to_string()))
    );
    let dev = InputDeviceInfo {
        device: "/dev/video0".to_string(),
        name: "Cam".to_string(),
        modes: vec![Mode { width: 640, height: 480, fps_num: 30, fps_den: 1 }],
    };
    assert_eq!(expect_input_list(Response::InputList { items: vec![dev.clone()] }), Ok(vec![dev]));
}

#[test]
fn expect_helpers_reject_other_replies() {
    let wrong = Response::PreviewUrl { url: None };
    let msg = expect_ok(wrong.clone()).unwrap_err();
    assert_eq!(msg, unexpected_response(wrong));
    assert_eq!(msg, "unexpected response: PreviewUrl { url: None }");
    assert_eq!(
        expect_emoji_list(Response::Accepted).unwrap_err(),
        "unexpected response: Ok"
    );
    assert!(expect_sync_status(Response::Accepted).is_err());
    assert!(expect_preview_url(Response::Accepted).is_err());
    assert!(expect_input_list(Response::Accepted).is_err());
}

fn settings(device: &str) -> AppliedSettings {
    AppliedSettings {
        device: device.to_string(),
        width: 1280,
        height: 720,
        fps_num: 30,
        fps_den: 1,
        preview: false,
        slot_count: 48,
        slot_dim: 256,
    }
}

#[test]
fn unchanged_settings_need_no_respawn() {
    let mut args = DaemonArgs::default();
    assert!(!update_args(&mut args, &settings("/dev/video0")));
    // The same path written differently is the same device.
    assert!(!update_args(&mut args, &settings("/dev//video0/")));
    assert_eq!(args, DaemonArgs::default());
}

#[test]
fn changed_settings_respawn_and_keep_output() {
    let mut args = DaemonArgs::default();
    let mut s = settings("/dev/video2");
    s.fps_num = 60;
    s.preview = true;
    assert!(update_args(&mut args, &s));
    assert_eq!(args.input, "/dev/video2");
    assert_eq!(args.output, "/dev/video10");
    assert_eq!(args.fps_num, 60);
    assert!(args.preview);
    let c = current_settings(&args);
    assert_eq!(c.device, "/dev/video2");
    assert_eq!((c.width, c.height, c.fps_num, c.fps_den), (1280, 720, 60, 1));
    assert!(c.preview);
}

#[test]
fn hotkeys_are_trimmed() {
    assert_eq!(normalize_hotkey(None), None);
    assert_eq!(normalize_hotkey(Some("   ".to_string())), None);
    assert_eq!(normalize_hotkey(Some(" Ctrl+E ".to_string())), Some("Ctrl+E".to_string()));
}

#[test]
fn snapshot_copies_prefs() {
    let mut p = UiPrefs::default();
    p.record("fire");
    p.toggle_favorite("tada");
    let s = prefs_snapshot(&p);
    assert_eq!(s.recents, ids(&["fire"]));
    assert_eq!(s.favorites, ids(&["tada"]));
    assert_eq!(s.color_scheme, "dark");
}

#[test]
fn repeat_last_needs_a_recent() {
    let p = UiPrefs::default();
    assert_eq!(repeat_last(&p), RepeatAction::NothingRecent);
    let mut p = UiPrefs::default();
    p.record("fire");
    assert_eq!(repeat_last(&p), RepeatAction::Trigger("fire".to_string()));
    p.safe_mode = true;
    assert_eq!(repeat_last(&p), RepeatAction::Trigger("fire".to_string()));
}

#[test]
fn repeat_last_is_blocked_by_safe_mode() {
    let mut p = UiPrefs::default();
    p.record("middle_finger");
    assert_eq!(repeat_last(&p), RepeatAction::Trigger("middle_finger".to_string()));
    p.safe_mode = true;
    assert_eq!(repeat_last(&p), RepeatAction::Blocked("middle_finger".to_string()));
}

#[test]
fn settings_and_socket_locations() {
    assert_eq!(
        gobcam::config::config_file(Some("/x/cfg"), Some("/home/u")),
        Some("/x/cfg/gobcam/config.json".to_string())
    );
    assert_eq!(
        gobcam::config::config_file(None, Some("/home/u")),
        Some("/home/u/.config/gobcam/config.json".to_string())
    );
    assert_eq!(gobcam::config::config_file(None, None), None);
    assert_eq!(
        gobcam::config::socket_path(Some("/tmp/s.sock".to_string()), Some("/run/user/1")),
        Some("/tmp/s.sock".to_string())
    );
    assert_eq!(
        gobcam::config::socket_path(None, Some("/run/user/1")),
        Some("/run/user/1/gobcam.sock".to_string())
    );
    assert_eq!(gobcam::config::socket_path(None, None), None);
    assert_eq!(
        gobcam::cache::default_cache_dir(None, Some("/home/u/")),
        Some("/home/u/.cache/gobcam".to_string())
    );
    assert_eq!(
        gobcam::cache::default_cache_dir(Some("/c"), None),
        Some("/c/gobcam".to_string())
    );
    assert_eq!(gobcam::cache::default_cache_dir(None, None), None);
}

#[test]
fn same_settings_respawn_once() {
    let mut args = DaemonArgs::default();
    let s = settings("/dev/video4");
    assert!(update_args(&mut args, &s));
    assert!(!update_args(&mut args, &s));
}

#[test]
fn replies_are_written_as_debug_text() {
    assert_eq!(render_response(&Response::Accepted), "Ok");
    assert_eq!(
        render_response(&Response::Error { message: "a \"b\"\n\t\\ \u{1b}é".to_string() }),
        format!("{:?}", Wire::Error { message: "a \"b\"\n\t\\ \u{1b}é".to_string() })
    );
    assert_eq!(
        render_response(&Response::SyncStatus { fetched: 3, total: 10, complete: true }),
        "SyncStatus { fetched: 3, total: 10, complete: true }"
    );
    assert_eq!(render_response(&Response::PreviewUrl { url: None }), "PreviewUrl { url: None }");
    assert_eq!(
        render_response(&Response::PreviewUrl { url: Some("http://x/".to_string()) }),
        "PreviewUrl { url: Some(\"http://x/\") }"
    );
    let e = EmojiInfo {
        id: "fire".to_string(),
        name: "Fire".to_string(),
        glyph: "🔥".to_string(),
        group: "Travel".to_string(),
        keywords: vec!["hot".to_string(), "flame".to_string()],
        has_animated: true,
        preview_path: "/c/previews/fire.png".to_string(),
    };
    assert_eq!(
        render_response(&Response::EmojiList { items: vec![e.clone(), e] }),
        "EmojiList { items: [EmojiInfo { id: \"fire\", name: \"Fire\", glyph: \"🔥\", group: \"Travel\", keywords: [\"hot\", \"flame\"], has_animated: true, preview_path: \"/c/previews/fire.png\" }, EmojiInfo { id: \"fire\", name: \"Fire\", glyph: \"🔥\", group: \"Travel\", keywords: [\"hot\", \"flame\"], has_animated: true, preview_path: \"/c/previews/fire.png\" }] }"
    );
    let d = InputDeviceInfo {
        device: "/dev/video0".to_string(),
        name: "Cam".to_string(),
        modes: vec![
            Mode { width: 640, height: 480, fps_num: 30, fps_den: 1 },
            Mode { width: 320, height: 240, fps_num: 7500, fps_den: 1000 },
        ],
    };
    assert_eq!(
        render_response(&Response::InputList { items: vec![d] }),
        "InputList { items: [InputDeviceInfo { device: \"/dev/video0\", name: \"Cam\", modes: [Mode { width: 640, height: 480, fps_num: 30, fps_den: 1 }, Mode { width: 320, height: 240, fps_num: 7500, fps_den: 1000 }] }] }"
    );
    assert_eq!(render_response(&Response::InputList { items: vec![] }), "InputList { items: [] }");
}

/// A reply shaped as the derived `Debug` sees it, to compare escapes.
#[derive(Debug)]
enum Wire {
    Error { message: String },
}

#[test]
fn respawn_resets_once_then_gives_up() {
    let (s, a) = respawn_next(Respawn::FirstSpawn, Ok(()));
    assert_eq!((s, a), (Respawn::FirstSpawn, RespawnAction::Done));
    let (s, a) = respawn_next(Respawn::FirstSpawn, Err("locked".to_string()));
    assert_eq!(a, RespawnAction::ResetLoopback);
    assert_eq!(s, Respawn::Resetting { spawn_error: "locked".to_string() });
    let (s2, a2) = respawn_next(s.clone(), Ok(()));
    assert_eq!((s2.clone(), a2), (Respawn::SecondSpawn, RespawnAction::Spawn));
    assert_eq!(
        respawn_next(s, Err("sudo: no".to_string())).1,
        RespawnAction::Fail("locked\n\nAuto-reset also failed: sudo: no".to_string())
    );
    assert_eq!(respawn_next(s2.clone(), Ok(())).1, RespawnAction::Done);
    assert_eq!(
        respawn_next(s2, Err("still locked".to_string())).1,
        RespawnAction::Fail("after auto-reset: still locked".to_string())
    );
}
