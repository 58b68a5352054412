use std::io::Cursor;

use gobcam::decode::{animation_from_frames, decode_animation, decode_still, RawFrame};
use gobcam::library::frame_delay_micros;

fn png_bytes() -> Vec<u8> {
    let img = image::RgbaImage::from_fn(2, 1, |x, _| image::Rgba([x as u8, 2, 3, 255]));
    let mut buf = Vec::new();
    img.write_to(&mut Cursor::new(&mut buf), image::ImageFormat::Png).unwrap();
    buf
}

#[test]
fn still_png_decodes_to_rgba() {
    let f = decode_still(&png_bytes()).unwrap();
    assert_eq!((f.width, f.height), (2, 1));
    assert_eq!(f.rgba, vec![0, 2, 3, 255, 1, 2, 3, 255]);
    assert_eq!((f.delay_num, f.delay_den), (0, 1));
}

#[test]
fn garbage_is_not_an_image() {
    assert!(decode_still(b"not a png").is_err());
    assert_eq!(decode_animation(b"not a png", "/c/x.png").unwrap_err(), "not a PNG: /c/x.png");
}

#[test]
fn still_png_has_no_animation_frames() {
    assert_eq!(decode_animation(&png_bytes(), "/c/a.png").unwrap_err(), "APNG had zero frames: /c/a.png");
}

#[test]
fn frame_delays() {
    assert_eq!(frame_delay_micros(100, 3), 33_333);
    assert_eq!(frame_delay_micros(40, 1), 40_000);
    assert_eq!(frame_delay_micros(7, 0), 100_000);
}

fn raw(delay_num: u32, delay_den: u32) -> RawFrame {
    RawFrame { width: 1, height: 1, rgba: vec![0, 0, 0, 255], delay_num, delay_den }
}

#[test]
fn decoded_frames_become_an_animation() {
    let (frames, delays) =
        animation_from_frames(Ok(vec![raw(40, 1), raw(100, 3), raw(5, 0)]), "a.png").unwrap();
    assert_eq!(frames, vec![raw(40, 1), raw(100, 3), raw(5, 0)]);
    assert_eq!(delays, vec![40_000, 33_333, 100_000]);
    assert_eq!(
        animation_from_frames(Ok(vec![]), "a.png").unwrap_err(),
        "APNG had zero frames: a.png"
    );
    assert_eq!(
        animation_from_frames(Err((false, "bad".to_owned())), "b.png").unwrap_err(),
        "not a PNG: b.png"
    );
    assert_eq!(
        animation_from_frames(Err((true, "bad".to_owned())), "b.png").unwrap_err(),
        "decoding APNG frame"
    );
}
