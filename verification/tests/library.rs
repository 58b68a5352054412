use gobcam::cache::{CacheRoot, EmojiId};
use gobcam::commands::{after_reset_message, reset_failed_message};
use gobcam::effects::curves_fit_clock;
use gobcam::library::{lookup_plan, resolve_step, ResolveStep, AssetKind, Catalog, CatalogEntry, SkinTone, Style};
use gobcam::loopback::{pick_tool, tool_candidates};
use gobcam::preview::{part_header, preview_url, PREVIEW_RESPONSE_HEADER};

fn entry(id: &str, has_animated: bool, static_path: &str, animated_path: &str) -> CatalogEntry {
    CatalogEntry {
        id: id.to_string(),
        name: id.to_string(),
        glyph: String::new(),
        group: "Smileys".to_string(),
        keywords: vec![],
        has_animated,
        static_path: static_path.to_string(),
        animated_path: animated_path.to_string(),
    }
}

fn catalog() -> Catalog {
    Catalog::new(vec![
        entry("fire", true, "assets/Fire/3D/fire_3d.png", "Fire/fire.png"),
        entry("rock", false, "assets/Rock/3D/rock_3d.png", ""),
        entry("blank", true, "", ""),
        entry("fire", false, "dup", "dup"),
    ])
}

#[test]
fn lookup_plans_follow_style_and_tone() {
    let c = catalog();
    let cache = CacheRoot::with_path("/c".to_string());
    let fire = EmojiId::new("fire".to_string());
    let p = lookup_plan(&c, &cache, &fire, Style::Animated, SkinTone::NoTone).unwrap();
    assert_eq!(p.kind, AssetKind::Animated);
    assert_eq!(p.fetch.dest, "/c/animated/fire.png");
    assert_eq!(p.fetch.upstream_path, "Fire/fire.png");
    let p = lookup_plan(&c, &cache, &fire, Style::Render3D, SkinTone::Default).unwrap();
    assert_eq!(p.kind, AssetKind::Static);
    assert_eq!(p.fetch.dest, "/c/previews/fire.png");
    assert!(lookup_plan(&c, &cache, &fire, Style::Animated, SkinTone::Dark).is_none());
    assert!(lookup_plan(&c, &cache, &fire, Style::Flat, SkinTone::NoTone).is_none());
    let rock = EmojiId::new("rock".to_string());
    assert!(lookup_plan(&c, &cache, &rock, Style::Animated, SkinTone::NoTone).is_none());
    assert!(lookup_plan(&c, &cache, &rock, Style::Render3D, SkinTone::NoTone).is_some());
    let blank = EmojiId::new("blank".to_string());
    assert!(lookup_plan(&c, &cache, &blank, Style::Animated, SkinTone::NoTone).is_none());
    assert!(lookup_plan(&c, &cache, &blank, Style::Render3D, SkinTone::NoTone).is_none());
    let none = EmojiId::new("nope".to_string());
    assert!(lookup_plan(&c, &cache, &none, Style::Render3D, SkinTone::NoTone).is_none());
}

#[test]
fn catalog_positions_find_the_first_entry() {
    let c = catalog();
    assert_eq!(c.position(&EmojiId::new("fire".to_string())), Some(0));
    assert_eq!(c.position(&EmojiId::new("blank".to_string())), Some(2));
    assert_eq!(c.position(&EmojiId::new("x".to_string())), None);
}

#[test]
fn module_tools_are_looked_up_in_order() {
    assert_eq!(
        tool_candidates("rmmod"),
        vec!["/usr/bin/rmmod", "/usr/sbin/rmmod", "/sbin/rmmod"]
    );
    assert_eq!(pick_tool("rmmod", &[false, true, true]), "/usr/sbin/rmmod");
    assert_eq!(pick_tool("rmmod", &[false, false, true]), "/sbin/rmmod");
    assert_eq!(pick_tool("rmmod", &[false, false, false]), "/usr/bin/rmmod");
    assert_eq!(pick_tool("modprobe", &[]), "/usr/bin/modprobe");
}

#[test]
fn respawn_messages() {
    assert_eq!(
        reset_failed_message("daemon did not bind /s within 10s", "sudo: no"),
        "daemon did not bind /s within 10s\n\nAuto-reset also failed: sudo: no"
    );
    assert_eq!(after_reset_message("boom"), "after auto-reset: boom");
}

#[test]
fn preview_framing() {
    assert_eq!(part_header(1234), "--frame\r\nContent-Type: image/jpeg\r\nContent-Length: 1234\r\n\r\n");
    assert_eq!(preview_url(8080), "http://127.0.0.1:8080/preview.mjpg");
    assert!(PREVIEW_RESPONSE_HEADER.starts_with("HTTP/1.0 200 OK\r\n"));
    assert!(PREVIEW_RESPONSE_HEADER.ends_with("\r\n\r\n"));
}

#[test]
fn clock_fit() {
    assert!(curves_fit_clock(0, 100, 50, 10));
    assert!(!curves_fit_clock(u64::MAX, 1, 0, 0));
    assert!(!curves_fit_clock(u64::MAX - 10, 10, 10, 1));
    assert!(curves_fit_clock(u64::MAX - 10, 10, 0, 10));
}

#[test]
fn resolution_stops_at_first_hit() {
    assert_eq!(resolve_step(0, 4, true), ResolveStep::Found(0));
    assert_eq!(resolve_step(0, 4, false), ResolveStep::Try(1));
    assert_eq!(resolve_step(2, 4, true), ResolveStep::Found(2));
    assert_eq!(resolve_step(3, 4, false), ResolveStep::Exhausted);
}
