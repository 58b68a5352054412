//! The daemon's command line and the GStreamer graph it describes:
//! camera → compositor → loopback sink, with an optional preview branch.

use vstd::prelude::*;

use crate::text::{chars_of, decimal, decimal_chars, ends_with, eq_chars, starts_with};

verus! {

/// Format the compositor blends in: alpha-aware 4:4:4 YUV, so per-pad
/// RGBA alpha survives into the blend.
pub const COMPOSITOR_BLEND_FORMAT: &'static str = "AYUV";

/// Format that reaches the loopback sink; cheap to narrow from the blend
/// format (chroma subsample and alpha drop).
pub const SINK_INPUT_FORMAT: &'static str = "I420";

/// The pipeline daemon's command line.
#[derive(Debug, Clone)]
pub struct Cli {
    /// v4l2 capture device (the real webcam).
    pub input: String,
    /// `v4l2src` `io-mode`: auto, rw, mmap, userptr, dmabuf or
    /// dmabuf-import.
    pub input_io_mode: String,
    /// v4l2loopback sink device exposed to apps.
    pub output: String,
    pub width: u32,
    pub height: u32,
    pub fps_num: u32,
    pub fps_den: u32,
    /// Compositor sink pads to pre-allocate.
    pub slot_count: usize,
    /// Slot canvas dimension in pixels (square).
    pub slot_dim: u32,
    /// Expose the output as a localhost MJPEG stream.
    pub preview: bool,
    /// Always-on overlay emoji id.
    pub overlay: Option<String>,
    /// Override of the asset cache root.
    pub cache_root: Option<String>,
    /// Read emoji ids from stdin, one per line.
    pub triggers_stdin: bool,
    /// Unix socket to accept commands on.
    pub socket: Option<String>,
    /// JSONL profile log path.
    pub profile_log: Option<String>,
    /// Exit when stdin reaches end of file.
    pub exit_on_stdin_eof: bool,
}

/// The `v4l2src` `io-mode` value of an io-mode name.
pub open spec fn io_mode_value(name: Seq<char>) -> Option<Seq<char>> {
    if name == "auto"@ {
        Some("0"@)
    } else if name == "rw"@ {
        Some("1"@)
    } else if name == "mmap"@ {
        Some("2"@)
    } else if name == "userptr"@ {
        Some("3"@)
    } else if name == "dmabuf"@ {
        Some("4"@)
    } else if name == "dmabuf-import"@ {
        Some("5"@)
    } else {
        None
    }
}

pub open spec fn io_mode_error(name: Seq<char>) -> Seq<char> {
    "--input-io-mode must be one of auto|rw|mmap|userptr|dmabuf|dmabuf-import, got: "@ + name
}

/// The `v4l2src` `io-mode` token for an io-mode name, or the error
/// naming the accepted ones.
pub fn io_mode_token(name: &str) -> (res: Result<&'static str, String>)
    ensures
        match res {
            Ok(t) => io_mode_value(name@) == Some(t@),
            Err(e) => io_mode_value(name@) is None && e@ == io_mode_error(name@),
        },
{
    let n = chars_of(name);
    if eq_chars(&n, &chars_of("auto")) {
        Ok("0")
    } else if eq_chars(&n, &chars_of("rw")) {
        Ok("1")
    } else if eq_chars(&n, &chars_of("mmap")) {
        Ok("2")
    } else if eq_chars(&n, &chars_of("userptr")) {
        Ok("3")
    } else if eq_chars(&n, &chars_of("dmabuf")) {
        Ok("4")
    } else if eq_chars(&n, &chars_of("dmabuf-import")) {
        Ok("5")
    } else {
        let mut e =
            "--input-io-mode must be one of auto|rw|mmap|userptr|dmabuf|dmabuf-import, got: ".to_owned();
        e.append(name);
        Err(e)
    }
}

/// The tail of the graph after the compositor: narrow to the sink format
/// and write to the loopback; with a preview, a tee also feeds a small
/// JPEG appsink.
pub open spec fn body_spec(cli: Cli) -> Seq<char> {
    let w = decimal(cli.width as nat);
    let h = decimal(cli.height as nat);
    if cli.preview {
        "videoconvert ! video/x-raw,format=I420,width="@ + w + ",height="@ + h
            + " ! tee name=split split. ! queue ! v4l2sink name=sink device="@ + cli.output@
            + " sync=false split. ! queue max-size-buffers=1 max-size-time=0 max-size-bytes=0 leaky=downstream ! videoscale ! video/x-raw,width=320,height=180 ! jpegenc quality=70 ! appsink name=preview sync=false drop=true max-buffers=1"@
    } else {
        "videoconvert ! video/x-raw,format=I420,width="@ + w + ",height="@ + h
            + " ! v4l2sink name=sink device="@ + cli.output@ + " sync=false"@
    }
}

/// The whole graph: camera with fixed caps, a queue, the compositor
/// blending in the blend format, then the tail.
pub open spec fn description_spec(cli: Cli, io: Seq<char>) -> Seq<char> {
    let w = decimal(cli.width as nat);
    let h = decimal(cli.height as nat);
    "v4l2src device="@ + cli.input@ + " io-mode="@ + io + " ! video/x-raw,width="@ + w
        + ",height="@ + h + ",framerate="@ + decimal(cli.fps_num as nat) + "/"@ + decimal(
        cli.fps_den as nat,
    )
        + " ! queue ! videoconvert ! compositor name=mix background=black ignore-inactive-pads=true ! video/x-raw,format=AYUV,width="@
        + w + ",height="@ + h + " ! "@ + body_spec(cli)
}

/// `s` occurs in `d`.
pub open spec fn has_segment(d: Seq<char>, s: Seq<char>) -> bool {
    exists|i: int| 0 <= i && i + s.len() <= d.len() && #[trigger] d.subrange(i, i + s.len()) == s
}

/// The loopback sink element, writing to `device`.
pub open spec fn sink_element(device: Seq<char>) -> Seq<char> {
    "v4l2sink name=sink device="@ + device + " sync=false"@
}

/// The graph reads the camera `cli.input` and writes to the loopback
/// `cli.output`, whether or not there is a preview: it starts with the
/// camera source on the input device in the chosen mode, it holds the sink on the output
/// device, and it ends at that sink without a preview, or at the preview
/// appsink, past a tee that also feeds the sink, with one.
pub proof fn law_graph_runs_camera_to_loopback(cli: Cli, io: Seq<char>)
    ensures
        starts_with(
            description_spec(cli, io),
            "v4l2src device="@ + cli.input@ + " io-mode="@ + io + " ! video/x-raw,width="@ + decimal(
                cli.width as nat,
            ) + ",height="@ + decimal(cli.height as nat) + ",framerate="@ + decimal(
                cli.fps_num as nat,
            ) + "/"@ + decimal(cli.fps_den as nat),
        ),
        has_segment(description_spec(cli, io), sink_element(cli.output@)),
        !cli.preview ==> ends_with(description_spec(cli, io), " ! "@ + sink_element(cli.output@)),
        cli.preview ==> has_segment(
            description_spec(cli, io),
            " ! tee name=split split. ! queue ! "@ + sink_element(cli.output@) + " split. "@,
        ),
        cli.preview ==> ends_with(
            description_spec(cli, io),
            " ! appsink name=preview sync=false drop=true max-buffers=1"@,
        ),
{
    let d = description_spec(cli, io);
    let w = decimal(cli.width as nat);
    let h = decimal(cli.height as nat);
    let src = "v4l2src device="@ + cli.input@ + " io-mode="@ + io + " ! video/x-raw,width="@ + w
        + ",height="@ + h + ",framerate="@ + decimal(cli.fps_num as nat) + "/"@ + decimal(
        cli.fps_den as nat,
    );
    let sink = sink_element(cli.output@);
    let out = cli.output@;
    let pre = "v4l2src device="@ + cli.input@ + " io-mode="@ + io + " ! video/x-raw,width="@ + w
        + ",height="@ + h + ",framerate="@ + decimal(cli.fps_num as nat) + "/"@ + decimal(
        cli.fps_den as nat,
    )
        + " ! queue ! videoconvert ! compositor name=mix background=black ignore-inactive-pads=true ! video/x-raw,format=AYUV,width="@
        + w + ",height="@ + h + " ! "@;
    assert(d == pre + body_spec(cli));
    assert(d.take(src.len() as int) =~= src);
    let dev = "v4l2sink name=sink device="@;
    let sync = " sync=false"@;
    reveal_strlit("v4l2sink name=sink device=");
    reveal_strlit(" sync=false");
    if cli.preview {
        let l3 = " ! tee name=split split. ! queue ! v4l2sink name=sink device="@;
        let l4 = " sync=false split. ! queue max-size-buffers=1 max-size-time=0 max-size-bytes=0 leaky=downstream ! videoscale ! video/x-raw,width=320,height=180 ! jpegenc quality=70 ! appsink name=preview sync=false drop=true max-buffers=1"@;
        let bpre = "videoconvert ! video/x-raw,format=I420,width="@ + w + ",height="@ + h + l3;
        assert(body_spec(cli) == bpre + out + l4);
        let tee = " ! tee name=split split. ! queue ! "@;
        let split = " split. "@;
        let fin = " ! appsink name=preview sync=false drop=true max-buffers=1"@;
        reveal_strlit(" ! tee name=split split. ! queue ! v4l2sink name=sink device=");
        reveal_strlit(" sync=false split. ! queue max-size-buffers=1 max-size-time=0 max-size-bytes=0 leaky=downstream ! videoscale ! video/x-raw,width=320,height=180 ! jpegenc quality=70 ! appsink name=preview sync=false drop=true max-buffers=1");
        reveal_strlit(" ! tee name=split split. ! queue ! ");
        reveal_strlit(" split. ");
        reveal_strlit(" ! appsink name=preview sync=false drop=true max-buffers=1");
        assert(l3 =~= tee + dev);
        assert(l4.take(sync.len() + split.len() as int) =~= sync + split);
        assert(l4.skip(l4.len() - fin.len()) =~= fin);
        let i = pre.len() + bpre.len() - l3.len();
        let seg = tee + sink + split;
        assert(d.subrange(i, i + seg.len()) =~= seg);
        let j = i + tee.len();
        assert(d.subrange(j, j + sink.len()) =~= sink);
        assert(d.skip(d.len() - fin.len()) =~= fin);
    } else {
        let l3 = " ! v4l2sink name=sink device="@;
        let bpre = "videoconvert ! video/x-raw,format=I420,width="@ + w + ",height="@ + h + l3;
        assert(body_spec(cli) == bpre + out + sync);
        reveal_strlit(" ! v4l2sink name=sink device=");
        reveal_strlit(" ! ");
        assert(l3 =~= " ! "@ + dev);
        let last = " ! "@ + sink;
        assert(d.skip(d.len() - last.len()) =~= last);
        let i = pre.len() + bpre.len() - dev.len();
        assert(d.subrange(i, i + sink.len()) =~= sink);
    }
}

fn push_number(s: &mut String, n: u64)
    ensures
        final(s)@ == old(s)@ + decimal(n as nat),
{
    let digits = decimal_chars(n);
    let t = crate::text::string_from(&digits);
    s.append(t.as_str());
}

/// The `gst-launch` description of the daemon's graph, or the io-mode
/// error.
pub fn description(cli: &Cli) -> (res: Result<String, String>)
    ensures
        match res {
            Ok(d) => io_mode_value(cli.input_io_mode@) matches Some(io) && d@ == description_spec(
                *cli,
                io,
            ),
            Err(e) => io_mode_value(cli.input_io_mode@) is None && e@ == io_mode_error(
                cli.input_io_mode@,
            ),
        },
{
    let io = match io_mode_token(cli.input_io_mode.as_str()) {
        Ok(t) => t,
        Err(e) => {
            return Err(e);
        },
    };
    let mut d = "v4l2src device=".to_owned();
    d.append(cli.input.as_str());
    d.append(" io-mode=");
    d.append(io);
    d.append(" ! video/x-raw,width=");
    push_number(&mut d, cli.width as u64);
    d.append(",height=");
    push_number(&mut d, cli.height as u64);
    d.append(",framerate=");
    push_number(&mut d, cli.fps_num as u64);
    d.append("/");
    push_number(&mut d, cli.fps_den as u64);
    d.append(
        " ! queue ! videoconvert ! compositor name=mix background=black ignore-inactive-pads=true ! video/x-raw,format=AYUV,width=",
    );
    push_number(&mut d, cli.width as u64);
    d.append(",height=");
    push_number(&mut d, cli.height as u64);
    d.append(" ! ");
    d.append("videoconvert ! video/x-raw,format=I420,width=");
    push_number(&mut d, cli.width as u64);
    d.append(",height=");
    push_number(&mut d, cli.height as u64);
    if cli.preview {
        d.append(" ! tee name=split split. ! queue ! v4l2sink name=sink device=");
        d.append(cli.output.as_str());
        d.append(
            " sync=false split. ! queue max-size-buffers=1 max-size-time=0 max-size-bytes=0 leaky=downstream ! videoscale ! video/x-raw,width=320,height=180 ! jpegenc quality=70 ! appsink name=preview sync=false drop=true max-buffers=1",
        );
    } else {
        d.append(" ! v4l2sink name=sink device=");
        d.append(cli.output.as_str());
        d.append(" sync=false");
    }
    assert(d@ =~= description_spec(*cli, io@));
    Ok(d)
}

/// The fixed raw format the loopback sink is pinned to.
#[derive(Debug, Clone, Copy, PartialEq, Eq, Structural)]
pub struct OutputCaps {
    pub width: i32,
    pub height: i32,
    pub fps_num: i32,
    pub fps_den: i32,
}

/// `v` as an `i32`, or `fallback` when it does not fit.
pub open spec fn to_i32_or(v: u32, fallback: i32) -> i32 {
    if v <= i32::MAX {
        v as i32
    } else {
        fallback
    }
}

fn u32_to_i32_or(v: u32, fallback: i32) -> (res: i32)
    ensures
        res == to_i32_or(v, fallback),
{
    if v <= 2147483647u32 {
        v as i32
    } else {
        fallback
    }
}

/// The sink's caps: the capture mode, each value saturated to `i32`.
pub fn output_caps(cli: &Cli) -> (res: OutputCaps)
    ensures
        res == (OutputCaps {
            width: to_i32_or(cli.width, i32::MAX),
            height: to_i32_or(cli.height, i32::MAX),
            fps_num: to_i32_or(cli.fps_num, i32::MAX),
            fps_den: to_i32_or(cli.fps_den, i32::MAX),
        }),
{
    OutputCaps {
        width: u32_to_i32_or(cli.width, 2147483647i32),
        height: u32_to_i32_or(cli.height, 2147483647i32),
        fps_num: u32_to_i32_or(cli.fps_num, 2147483647i32),
        fps_den: u32_to_i32_or(cli.fps_den, 2147483647i32),
    }
}

/// The canvas reactions are laid out on: the capture size, 1280x720 for
/// a dimension that does not fit in `i32`.
pub fn canvas(cli: &Cli) -> (res: (i32, i32))
    ensures
        res == (to_i32_or(cli.width, 1280), to_i32_or(cli.height, 720)),
{
    (u32_to_i32_or(cli.width, 1280), u32_to_i32_or(cli.height, 720))
}

/// What the daemon does with its stdin.
#[derive(Debug, Clone, Copy, PartialEq, Eq, Structural)]
pub enum StdinRole {
    /// One emoji id per line, each fired as a reaction.
    Triggers,
    /// End of file shuts the daemon down.
    Watchdog,
    /// Left alone.
    Ignored,
}

/// Reading triggers from stdin wins over the end-of-file watchdog.
pub fn stdin_role(cli: &Cli) -> (res: StdinRole)
    ensures
        res == (if cli.triggers_stdin {
            StdinRole::Triggers
        } else if cli.exit_on_stdin_eof {
            StdinRole::Watchdog
        } else {
            StdinRole::Ignored
        }),
{
    if cli.triggers_stdin {
        StdinRole::Triggers
    } else if cli.exit_on_stdin_eof {
        StdinRole::Watchdog
    } else {
        StdinRole::Ignored
    }
}

} // verus!
