use gobcam::cache::{join, url_for, with_extension, Base, CacheRoot, EmojiId};
use gobcam::library::{
    activation_attempts, animated_fetch, asset_for_style, fallback_chain, frame_delay_micros,
    list_emoji, resolution_order, static_fetch, tone_available, AssetKind, Catalog, CatalogEntry,
    SkinTone, Style,
};

#[test]
fn url_construction_encodes_spaces() {
    assert_eq!(
        url_for(Base::Static, "assets/Person raising hand/3D/x.png"),
        "https://raw.githubusercontent.com/microsoft/fluentui-emoji/main/\
         assets/Person%20raising%20hand/3D/x.png"
    );
}

#[test]
fn animated_urls_use_the_animated_repository() {
    assert_eq!(
        url_for(Base::Animated, "assets/Fire/animated/fire.png"),
        "https://media.githubusercontent.com/media/microsoft/fluentui-emoji-animated/main/assets/Fire/animated/fire.png"
    );
}

#[test]
fn tmp_filename_appends_not_replaces() {
    let p = "/x/foo.png";
    assert_eq!(with_extension(p, "tmp"), "/x/foo.png.tmp");
}

#[test]
fn cache_paths_follow_the_layout() {
    let root = CacheRoot::with_path("/home/u/.cache/gobcam".to_string());
    let id = EmojiId::new("fire".to_string());
    assert_eq!(root.preview_path(&id), "/home/u/.cache/gobcam/previews/fire.png");
    assert_eq!(root.animated_path(&id), "/home/u/.cache/gobcam/animated/fire.png");
    let slash = CacheRoot::with_path("/tmp/g/".to_string());
    assert!(slash.preview_path(&id).ends_with("previews/fire.png"));
    assert_eq!(slash.preview_path(&id), "/tmp/g/previews/fire.png");
}

#[test]
fn join_follows_path_rules() {
    assert_eq!(join("/a", "b"), "/a/b");
    assert_eq!(join("/a/", "b"), "/a/b");
    assert_eq!(join("", "b"), "b");
    assert_eq!(join("/a", "/etc"), "/etc");
}

#[test]
fn styles_fall_back_from_animated_to_static() {
    assert_eq!(fallback_chain(), vec![Style::Animated, Style::Render3D]);
    assert_eq!(
        resolution_order(Style::Render3D, &fallback_chain()),
        vec![Style::Render3D, Style::Animated]
    );
    assert_eq!(
        resolution_order(Style::Animated, &fallback_chain()),
        vec![Style::Animated, Style::Render3D]
    );
    assert_eq!(
        activation_attempts(&fallback_chain()),
        vec![
            (Style::Animated, SkinTone::NoTone),
            (Style::Render3D, SkinTone::NoTone),
            (Style::Animated, SkinTone::Default),
            (Style::Render3D, SkinTone::Default),
        ]
    );
    assert_eq!(asset_for_style(Style::Animated), Some(AssetKind::Animated));
    assert_eq!(asset_for_style(Style::Render3D), Some(AssetKind::Static));
    assert_eq!(asset_for_style(Style::Flat), None);
    assert!(tone_available(SkinTone::NoTone));
    assert!(tone_available(SkinTone::Default));
    assert!(!tone_available(SkinTone::Dark));
}

fn entry(id: &str, has_animated: bool, static_path: &str, animated_path: &str) -> CatalogEntry {
    CatalogEntry {
        id: id.to_string(),
        name: id.to_uppercase(),
        glyph: "*".to_string(),
        group: "Misc".to_string(),
        keywords: vec![id.to_string()],
        has_animated,
        static_path: static_path.to_string(),
        animated_path: animated_path.to_string(),
    }
}

#[test]
fn catalog_lookup_and_listing() {
    let catalog = Catalog::new(vec![
        entry("fire", true, "assets/Fire/3D/fire_3d.png", "assets/Fire/animated/fire.png"),
        entry("rock", false, "", ""),
    ]);
    let cache = CacheRoot::with_path("/c".to_string());
    assert_eq!(catalog.len(), 2);
    let fire = catalog.get(&EmojiId::new("fire".to_string())).unwrap();
    assert_eq!(fire.name, "FIRE");
    assert!(catalog.get(&EmojiId::new("water".to_string())).is_none());
    let listed = list_emoji(&catalog, &cache);
    assert_eq!(listed.len(), 2);
    assert_eq!(listed[0].id, "fire");
    assert_eq!(listed[0].preview_path, "/c/previews/fire.png");
    assert!(listed[0].has_animated);
    assert_eq!(listed[1].keywords, vec!["rock".to_string()]);

    let s = static_fetch(fire, &cache).unwrap();
    assert_eq!(s.dest, "/c/previews/fire.png");
    assert_eq!(s.upstream_path, "assets/Fire/3D/fire_3d.png");
    let a = animated_fetch(fire, &cache).unwrap();
    assert_eq!(a.dest, "/c/animated/fire.png");
    let rock = catalog.get(&EmojiId::new("rock".to_string())).unwrap();
    assert!(static_fetch(rock, &cache).is_none());
    assert!(animated_fetch(rock, &cache).is_none());
}

#[test]
fn frame_delays_in_microseconds() {
    assert_eq!(frame_delay_micros(100, 1), 100_000);
    assert_eq!(frame_delay_micros(1, 3), 333);
    assert_eq!(frame_delay_micros(5, 0), 100_000);
}
