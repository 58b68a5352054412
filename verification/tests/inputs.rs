use gobcam::inputs::{
    friendly_name, is_raw_format, modes_from_listing, parse, rated_modes, scan_modes, ListedRate,
};
use gobcam::protocol::Mode;

/// A rate text as the daemon reads it: an `f64`, kept whole when its
/// fraction is under a thousandth, else in thousandths.
fn rate_of(text: &str) -> Option<(u32, u32)> {
    let fps: f64 = text.parse().ok()?;
    let cast = |x: f64| -> u32 {
        if !x.is_finite() || x < 0.0 {
            0
        } else if x >= f64::from(u32::MAX) {
            u32::MAX
        } else {
            x as u32
        }
    };
    Some(if fps.fract().abs() < 1e-3 && fps > 0.0 {
        (cast(fps.round()), 1)
    } else {
        (cast((fps * 1000.0).round()), 1000)
    })
}

fn rates(listed: &[ListedRate]) -> Vec<Option<(u32, u32)>> {
    listed.iter().map(|l| rate_of(&l.rate)).collect()
}

fn parse_modes(text: &str) -> Vec<Mode> {
    let listed = scan_modes(text);
    rated_modes(&listed, &rates(&listed))
}

fn listing(text: &str) -> Vec<Mode> {
    let listed = scan_modes(text);
    modes_from_listing(&listed, &rates(&listed))
}

const SAMPLE: &str = "\
Gobcam (platform:v4l2loopback-010):
\t/dev/video10

Logitech BRIO (usb-0000:00:14.0-6):
\t/dev/video0
\t/dev/video1
\t/dev/video2
\t/dev/video3
\t/dev/media0
";

#[test]
fn excludes_loopback_and_picks_first_path_per_group() {
    let out = parse(SAMPLE, "/dev/video10");
    assert_eq!(out.len(), 1);
    assert_eq!(out[0].device, "/dev/video0");
    assert_eq!(out[0].name, "Logitech BRIO");
}

#[test]
fn no_exclusion_returns_both() {
    let out = parse(SAMPLE, "/dev/video99");
    assert_eq!(out.len(), 2);
    assert_eq!(out[0].name, "Gobcam");
    assert_eq!(out[1].device, "/dev/video0");
}

#[test]
fn skips_non_video_entries() {
    let s = "WebCam:\n\t/dev/video0\n\t/dev/media0\n";
    let out = parse(s, "/dev/null");
    assert_eq!(out.len(), 1);
    assert_eq!(out[0].device, "/dev/video0");
}

const MODES_SAMPLE: &str = "\
ioctl: VIDIOC_ENUM_FMT
\tType: Video Capture

\t[0]: 'YUYV' (YUYV 4:2:2)
\t\tSize: Discrete 1280x720
\t\t\tInterval: Discrete 0.033s (30.000 fps)
\t\t\tInterval: Discrete 0.067s (15.000 fps)
\t\tSize: Discrete 640x480
\t\t\tInterval: Discrete 0.033s (30.000 fps)
\t[1]: 'MJPG' (Motion-JPEG, compressed)
\t\tSize: Discrete 1920x1080
\t\t\tInterval: Discrete 0.033s (30.000 fps)
";

#[test]
fn parses_modes_and_filters_mjpg() {
    let modes = parse_modes(MODES_SAMPLE);
    // 720p@30, 720p@15, 480p@30 — MJPG 1080p excluded
    assert_eq!(modes.len(), 3);
    assert!(modes
        .iter()
        .any(|m| m.width == 1280 && m.height == 720 && m.fps_num == 30));
    assert!(modes
        .iter()
        .any(|m| m.width == 1280 && m.height == 720 && m.fps_num == 15));
    assert!(modes
        .iter()
        .any(|m| m.width == 640 && m.height == 480 && m.fps_num == 30));
    assert!(!modes.iter().any(|m| m.width == 1920));
}

#[test]
fn fractional_fps_uses_thousandths() {
    let s = "\t[0]: 'YUYV' (YUYV)\n\t\tSize: Discrete 320x240\n\t\t\tInterval: Discrete 0.133s (7.500 fps)\n";
    let modes = parse_modes(s);
    assert_eq!(modes.len(), 1);
    assert_eq!(modes[0].fps_num, 7500);
    assert_eq!(modes[0].fps_den, 1000);
}

fn mode(width: u32, height: u32, fps_num: u32, fps_den: u32) -> Mode {
    Mode {
        width,
        height,
        fps_num,
        fps_den,
    }
}

#[test]
fn parsed_modes_keep_listing_order() {
    let modes = parse_modes(MODES_SAMPLE);
    assert_eq!(
        modes,
        vec![
            mode(1280, 720, 30, 1),
            mode(1280, 720, 15, 1),
            mode(640, 480, 30, 1)
        ]
    );
}

#[test]
fn listing_orders_highest_first_and_drops_repeats() {
    let text = "\
\t[0]: 'YUYV' (YUYV 4:2:2)
\t\tSize: Discrete 640x480
\t\t\tInterval: Discrete 0.067s (15.000 fps)
\t\t\tInterval: Discrete 0.033s (30.000 fps)
\t\tSize: Discrete 1280x720
\t\t\tInterval: Discrete 0.133s (7.500 fps)
\t\t\tInterval: Discrete 0.033s (30.000 fps)
\t[1]: 'NV12' (Y/CbCr 4:2:0)
\t\tSize: Discrete 1280x720
\t\t\tInterval: Discrete 0.033s (30.000 fps)
";
    let modes = listing(text);
    assert_eq!(
        modes,
        vec![
            mode(1280, 720, 30, 1),
            mode(1280, 720, 7500, 1000),
            mode(640, 480, 30, 1),
            mode(640, 480, 15, 1),
        ]
    );
}

#[test]
fn level_modes_keep_their_order() {
    // 30/1 and 30000/1000 sort level; the stable order keeps them as listed.
    let text = "\
\t[0]: 'YUYV' (YUYV 4:2:2)
\t\tSize: Discrete 640x480
\t\t\tInterval: Discrete 0.033s (29.99995 fps)
\t\t\tInterval: Discrete 0.033s (30.000 fps)
";
    let modes = listing(text);
    assert_eq!(modes, vec![mode(640, 480, 30000, 1000), mode(640, 480, 30, 1)]);
    let text2 = "\
\t[0]: 'YUYV' (YUYV 4:2:2)
\t\tSize: Discrete 640x480
\t\t\tInterval: Discrete 0.050s (20.000 fps)
\t\t\tInterval: Discrete 0.033s (29.970 fps)
\t\t\tInterval: Discrete 0.033s (30.000 fps)
";
    let modes2 = listing(text2);
    assert_eq!(
        modes2,
        vec![
            mode(640, 480, 30, 1),
            mode(640, 480, 29970, 1000),
            mode(640, 480, 20, 1)
        ]
    );
}

#[test]
fn rates_are_kept_as_written() {
    let text = "\t[0]: 'YUYV' (x)\n\t\tSize: Discrete 10x20\n\t\t\tInterval: Discrete 1s (29.970 fps)\n\t\t\tInterval: Discrete 1s (+1e3 fps)\n\t\t\tInterval: Discrete 1s (inf fps)\n\t\t\tInterval: Discrete 1s (a(b) fps)\n\t\t\tInterval: Discrete 1s (30 fps\n";
    let listed = scan_modes(text);
    let got: Vec<(u32, u32, &str)> =
        listed.iter().map(|l| (l.width, l.height, l.rate.as_str())).collect();
    assert_eq!(got, vec![(10, 20, "29.970"), (10, 20, "+1e3"), (10, 20, "inf"), (10, 20, "b)")]);
}

#[test]
fn unrated_entries_give_no_mode() {
    let listed = scan_modes(MODES_SAMPLE);
    assert_eq!(listed.len(), 3);
    let modes = rated_modes(&listed, &[Some((30, 1)), None, Some((7500, 1000))]);
    assert_eq!(modes, vec![mode(1280, 720, 30, 1), mode(640, 480, 7500, 1000)]);
    let ordered = modes_from_listing(&listed, &[None, Some((15, 1)), Some((15, 1))]);
    assert_eq!(ordered, vec![mode(1280, 720, 15, 1), mode(640, 480, 15, 1)]);
    assert!(modes_from_listing(&listed, &[None, None, None]).is_empty());
}

#[test]
fn intervals_need_a_raw_format_and_a_size() {
    let no_size = "\t[0]: 'YUYV' (x)\n\t\t\tInterval: Discrete 0.033s (30.000 fps)\n";
    assert!(parse_modes(no_size).is_empty());
    let no_format = "\t\tSize: Discrete 10x10\n\t\t\tInterval: Discrete 0.033s (30.000 fps)\n";
    assert!(parse_modes(no_format).is_empty());
    let new_format_forgets_size =
        "\t[0]: 'YUYV' (x)\n\t\tSize: Discrete 10x10\n\t[1]: 'NV12' (y)\n\t\t\tInterval: Discrete 0.033s (30.000 fps)\n";
    assert!(parse_modes(new_format_forgets_size).is_empty());
    let bad_size = "\t[0]: 'YUYV' (x)\n\t\tSize: Discrete 10x99999999999\n\t\t\tInterval: Discrete 0.033s (30.000 fps)\n";
    assert!(parse_modes(bad_size).is_empty());
}

#[test]
fn crlf_line_endings_are_accepted() {
    let s = "\t[0]: 'YUYV' (x)\r\n\t\tSize: Discrete 320x240\r\n\t\t\tInterval: Discrete 0.033s (30.000 fps)\r\n";
    let modes = parse_modes(s);
    assert_eq!(modes, vec![mode(320, 240, 30, 1)]);
}

#[test]
fn raw_formats() {
    for f in ["MJPG", "MPEG", "H264", "HEVC", "VP8", "VP9"] {
        assert!(!is_raw_format(f), "{f}");
    }
    for f in ["YUYV", "NV12", "mjpg", "RGB3"] {
        assert!(is_raw_format(f), "{f}");
    }
}

#[test]
fn friendly_name_trims_bus_info() {
    assert_eq!(friendly_name("Logitech BRIO (usb-0000:00:14.0-6)"), "Logitech BRIO");
    assert_eq!(friendly_name("WebCam"), "WebCam");
    assert_eq!(friendly_name("A (b) (c)"), "A (b)");
}

#[test]
fn excluded_device_compares_as_a_path() {
    let s = "Cam:\n\t/dev/video10\n\t/dev/video11\n";
    let out = parse(s, "/dev//video10/");
    assert_eq!(out.len(), 1);
    assert_eq!(out[0].device, "/dev/video11");
    let out2 = parse(s, "/dev/video1");
    assert_eq!(out2.len(), 1);
    assert_eq!(out2[0].device, "/dev/video10");
}

#[test]
fn devices_without_a_group_are_skipped() {
    let s = "\t/dev/video0\nCam:\n\t/dev/video2\n";
    let out = parse(s, "/dev/video10");
    assert_eq!(out.len(), 1);
    assert_eq!(out[0].device, "/dev/video2");
    assert_eq!(out[0].name, "Cam");
    assert!(out[0].modes.is_empty());
}
