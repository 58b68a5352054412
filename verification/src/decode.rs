//! Decoding cached PNG assets into RGBA pixels: every frame of an
//! animated PNG with its delay, or the single image of a static PNG.

use vstd::prelude::*;

use image::codecs::png::PngDecoder;
use image::AnimationDecoder;

use crate::library::frame_delay_micros;

verus! {

/// One decoded image: its size and its RGBA pixels, row by row, plus the
/// delay before the next frame as a fraction `delay_num / delay_den` of
/// a millisecond (`0 / 1` for a still image).
#[derive(Debug, Clone, PartialEq, Eq)]
pub struct RawFrame {
    pub width: u32,
    pub height: u32,
    pub rgba: Vec<u8>,
    pub delay_num: u32,
    pub delay_den: u32,
}

impl View for RawFrame {
    type V = (u32, u32, Seq<u8>, u32, u32);

    open spec fn view(&self) -> (u32, u32, Seq<u8>, u32, u32) {
        (self.width, self.height, self.rgba@, self.delay_num, self.delay_den)
    }
}

pub open spec fn frame_views(v: Seq<RawFrame>) -> Seq<(u32, u32, Seq<u8>, u32, u32)> {
    v.map_values(|f: RawFrame| f@)
}

/// What the `image` crate's APNG decoder reads from `bytes`: every
/// frame, composited to full RGBA, with its delay; or the first error,
/// `false` when the bytes are not a PNG and `true` when a frame failed,
/// with the error's text.
pub uninterp spec fn apng_frames(bytes: Seq<u8>) -> Result<Seq<(u32, u32, Seq<u8>, u32, u32)>, (bool, Seq<char>)>;

/// `PngDecoder::new(..).apng()` and its `into_frames`, collected until
/// the first error; named by `apng_frames`.
#[verifier::external_body]
fn decode_apng(bytes: &[u8]) -> (res: Result<Vec<RawFrame>, (bool, String)>)
    ensures
        match res {
            Ok(v) => apng_frames(bytes@) == Ok::<_, (bool, Seq<char>)>(frame_views(v@)),
            Err((in_frame, e)) => apng_frames(bytes@) == Err::<Seq<(u32, u32, Seq<u8>, u32, u32)>, _>(
                (in_frame, e@),
            ),
        },
{
    let decoder = PngDecoder::new(std::io::Cursor::new(bytes)).and_then(|d| d.apng());
    let frames = decoder.map_err(|e| (false, e.to_string()))?.into_frames();
    frames.map(|f| f.map(|f| {
        let (delay_num, delay_den) = f.delay().numer_denom_ms();
        let b = f.into_buffer();
        RawFrame { width: b.width(), height: b.height(), rgba: b.into_raw(), delay_num, delay_den }
    })).collect::<Result<Vec<RawFrame>, image::ImageError>>().map_err(|e| (true, e.to_string()))
}

/// What the `image` crate decodes from the image file `bytes`, converted
/// to RGBA: its size and pixels, or the text of its error.
pub uninterp spec fn rgba_image(bytes: Seq<u8>) -> Result<(u32, u32, Seq<u8>), Seq<char>>;

/// `image::load_from_memory(..)` converted by `to_rgba8`, named by
/// `rgba_image`.
#[verifier::external_body]
fn decode_rgba(bytes: &[u8]) -> (res: Result<(u32, u32, Vec<u8>), String>)
    ensures
        match res {
            Ok((w, h, px)) => rgba_image(bytes@) == Ok::<(u32, u32, Seq<u8>), Seq<char>>((w, h, px@)),
            Err(e) => rgba_image(bytes@) == Err::<(u32, u32, Seq<u8>), Seq<char>>(e@),
        },
{
    let img = image::load_from_memory(bytes).map_err(|e| e.to_string())?.to_rgba8();
    Ok((img.width(), img.height(), img.into_raw()))
}

/// The delay of a frame in microseconds; a zero denominator reads as
/// 100 ms.
pub open spec fn delay_micros(num: u32, den: u32) -> int {
    if den == 0 {
        100_000
    } else {
        (num as int * 1000) / den as int
    }
}

/// An animation from what the APNG decoder gave for the file at `path`:
/// its frames and each one's delay in microseconds. A file that is not a
/// PNG, a frame that failed, and an animation without frames are errors.
pub fn animation_from_frames(
    decoded: Result<Vec<RawFrame>, (bool, String)>,
    path: &str,
) -> (res: Result<(Vec<RawFrame>, Vec<u64>), String>)
    ensures
        match decoded {
            Err((in_frame, _)) => res matches Err(m) && m@ == (if in_frame {
                "decoding APNG frame"@
            } else {
                "not a PNG: "@ + path@
            }),
            Ok(fs) => if fs.len() == 0 {
                res matches Err(m) && m@ == "APNG had zero frames: "@ + path@
            } else {
                res matches Ok((frames, delays)) && frame_views(frames@) == frame_views(fs@)
                    && delays@.len() == fs.len() && forall|i: int|
                    0 <= i < fs.len() ==> #[trigger] delays@[i] == delay_micros(
                        fs@[i].delay_num,
                        fs@[i].delay_den,
                    )
            },
        },
{
    let frames = match decoded {
        Ok(v) => v,
        Err((true, _)) => {
            return Err("decoding APNG frame".to_owned());
        },
        Err((false, _)) => {
            let mut m = "not a PNG: ".to_owned();
            m.append(path);
            return Err(m);
        },
    };
    if frames.len() == 0 {
        let mut m = "APNG had zero frames: ".to_owned();
        m.append(path);
        return Err(m);
    }
    let mut delays: Vec<u64> = Vec::new();
    let mut i: usize = 0;
    while i < frames.len()
        invariant
            i <= frames@.len(),
            delays@.len() == i,
            forall|k: int|
                0 <= k < i ==> #[trigger] delays@[k] == delay_micros(
                    frames@[k].delay_num,
                    frames@[k].delay_den,
                ),
        decreases frames@.len() - i,
    {
        delays.push(frame_delay_micros(frames[i].delay_num, frames[i].delay_den));
        i = i + 1;
    }
    Ok((frames, delays))
}

/// The frames of the animated PNG `bytes`, read from `path`, and each
/// one's delay in microseconds. Bytes that are not a PNG, a frame that
/// does not decode, and an animation without frames are errors.
pub fn decode_animation(bytes: &[u8], path: &str) -> (res: Result<(Vec<RawFrame>, Vec<u64>), String>)
    ensures
        match apng_frames(bytes@) {
            Err((in_frame, _)) => res matches Err(m) && m@ == (if in_frame {
                "decoding APNG frame"@
            } else {
                "not a PNG: "@ + path@
            }),
            Ok(fs) => if fs.len() == 0 {
                res matches Err(m) && m@ == "APNG had zero frames: "@ + path@
            } else {
                res matches Ok((frames, delays)) && frame_views(frames@) == fs && delays@.len()
                    == fs.len() && forall|i: int|
                    0 <= i < fs.len() ==> #[trigger] delays@[i] == delay_micros(fs[i].3, fs[i].4)
            },
        },
{
    let decoded = decode_apng(bytes);
    let ghost d = decoded;
    let res = animation_from_frames(decoded, path);
    proof {
        if let Ok(v) = d {
            let fs = frame_views(v@);
            assert forall|k: int| 0 <= k < fs.len() implies fs[k].3 == v@[k].delay_num && fs[k].4 == v@[k].delay_den by {
                assert(fs[k] == v@[k]@);
            }
        }
    }
    res
}

/// The single RGBA image of the still image file `bytes`.
pub fn decode_still(bytes: &[u8]) -> (res: Result<RawFrame, String>)
    ensures
        match rgba_image(bytes@) {
            Err(e) => res matches Err(m) && m@ == e,
            Ok((w, h, px)) => res matches Ok(f) && f@ == (w, h, px, 0u32, 1u32),
        },
{
    match decode_rgba(bytes) {
        Ok((width, height, rgba)) => Ok(RawFrame { width, height, rgba, delay_num: 0, delay_den: 1 }),
        Err(e) => Err(e),
    }
}

} // verus!
