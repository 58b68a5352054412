//! The preview branch's MJPEG-over-HTTP framing: the reply header every
//! client gets, the header of each JPEG part, and the stream's URL.

use vstd::prelude::*;

use crate::text::{decimal, decimal_chars, string_from};

verus! {

/// The reply to any request on the preview socket: an endless
/// `multipart/x-mixed-replace` stream that is never cached.
pub const PREVIEW_RESPONSE_HEADER: &'static str = "HTTP/1.0 200 OK\r\nContent-Type: multipart/x-mixed-replace; boundary=frame\r\nCache-Control: no-cache, no-store, private\r\nPragma: no-cache\r\nConnection: close\r\n\r\n";

/// The header in front of one JPEG of `len` bytes.
pub fn part_header(len: usize) -> (res: String)
    ensures
        res@ == "--frame\r\nContent-Type: image/jpeg\r\nContent-Length: "@ + decimal(len as nat)
            + "\r\n\r\n"@,
{
    let mut s = "--frame\r\nContent-Type: image/jpeg\r\nContent-Length: ".to_owned();
    s.append(string_from(&decimal_chars(len as u64)).as_str());
    s.append("\r\n\r\n");
    s
}

/// The URL of the preview stream served on localhost `port`.
pub fn preview_url(port: u16) -> (res: String)
    ensures
        res@ == "http://127.0.0.1:"@ + decimal(port as nat) + "/preview.mjpg"@,
{
    let mut s = "http://127.0.0.1:".to_owned();
    s.append(string_from(&decimal_chars(port as u64)).as_str());
    s.append("/preview.mjpg");
    s
}

} // verus!
