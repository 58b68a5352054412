//! The text of a daemon reply as the panel quotes it in an error: the
//! reply written the way Rust's derived `Debug` writes it, with strings
//! quoted and escaped.

use vstd::prelude::*;

use crate::protocol::{EmojiInfo, InputDeviceInfo, Mode, Response};
use crate::text::{chars_of, decimal, decimal_chars, push_char, string_from};

verus! {

/// A lower-case hexadecimal digit.
pub open spec fn hex_digit(d: nat) -> char {
    if d < 10 {
        (('0' as nat) + d) as char
    } else {
        (('a' as nat) + d - 10) as char
    }
}

/// `n` in lower-case hexadecimal, without leading zeros.
pub open spec fn hex(n: nat) -> Seq<char>
    decreases n,
{
    if n < 16 {
        seq![hex_digit(n)]
    } else {
        hex(n / 16) + seq![hex_digit(n % 16)]
    }
}

/// How a character is written inside a quoted string: the named escapes
/// for NUL, tab, line feed, carriage return, backslash and double quote,
/// `\u{..}` for the other ASCII control characters, and any other
/// character as itself.
pub open spec fn escape_char(c: char) -> Seq<char> {
    if c == '\0' {
        seq!['\\', '0']
    } else if c == '\t' {
        seq!['\\', 't']
    } else if c == '\n' {
        seq!['\\', 'n']
    } else if c == '\r' {
        seq!['\\', 'r']
    } else if c == '\\' {
        seq!['\\', '\\']
    } else if c == '"' {
        seq!['\\', '"']
    } else if (c as u32) < 0x20 || c as u32 == 0x7f {
        seq!['\\', 'u', '{'] + hex((c as u32) as nat) + seq!['}']
    } else {
        seq![c]
    }
}

pub open spec fn escaped(s: Seq<char>) -> Seq<char>
    decreases s.len(),
{
    if s.len() == 0 {
        Seq::empty()
    } else {
        escaped(s.drop_last()) + escape_char(s.last())
    }
}

/// A string as `Debug` writes it: quoted and escaped.
pub open spec fn quoted(s: Seq<char>) -> Seq<char> {
    seq!['"'] + escaped(s) + seq!['"']
}

pub open spec fn bool_text(b: bool) -> Seq<char> {
    if b {
        "true"@
    } else {
        "false"@
    }
}

/// Items separated by `", "`.
pub open spec fn joined(items: Seq<Seq<char>>) -> Seq<char>
    decreases items.len(),
{
    if items.len() == 0 {
        Seq::empty()
    } else if items.len() == 1 {
        items[0]
    } else {
        joined(items.drop_last()) + ", "@ + items.last()
    }
}

/// A list as `Debug` writes it: `[a, b, c]`.
pub open spec fn list_text(items: Seq<Seq<char>>) -> Seq<char> {
    "["@ + joined(items) + "]"@
}

pub open spec fn strings_text(v: Seq<String>) -> Seq<char> {
    list_text(v.map_values(|s: String| quoted(s@)))
}

pub open spec fn mode_text(m: Mode) -> Seq<char> {
    "Mode { width: "@ + decimal(m.width as nat) + ", height: "@ + decimal(m.height as nat)
        + ", fps_num: "@ + decimal(m.fps_num as nat) + ", fps_den: "@ + decimal(
        m.fps_den as nat,
    ) + " }"@
}

pub open spec fn emoji_text(e: EmojiInfo) -> Seq<char> {
    "EmojiInfo { id: "@ + quoted(e.id@) + ", name: "@ + quoted(e.name@) + ", glyph: "@ + quoted(
        e.glyph@,
    ) + ", group: "@ + quoted(e.group@) + ", keywords: "@ + strings_text(e.keywords@)
        + ", has_animated: "@ + bool_text(e.has_animated) + ", preview_path: "@ + quoted(
        e.preview_path@,
    ) + " }"@
}

pub open spec fn device_text(d: InputDeviceInfo) -> Seq<char> {
    "InputDeviceInfo { device: "@ + quoted(d.device@) + ", name: "@ + quoted(d.name@)
        + ", modes: "@ + list_text(d.modes@.map_values(|m: Mode| mode_text(m))) + " }"@
}

/// A reply as `Debug` writes it; the acknowledgement is named `Ok`, as
/// on the wire.
pub open spec fn response_text(r: Response) -> Seq<char> {
    match r {
        Response::Accepted => "Ok"@,
        Response::Error { message } => "Error { message: "@ + quoted(message@) + " }"@,
        Response::EmojiList { items } => "EmojiList { items: "@ + list_text(
            items@.map_values(|e: EmojiInfo| emoji_text(e)),
        ) + " }"@,
        Response::SyncStatus { fetched, total, complete } => "SyncStatus { fetched: "@ + decimal(
            fetched as nat,
        ) + ", total: "@ + decimal(total as nat) + ", complete: "@ + bool_text(complete)
            + " }"@,
        Response::InputList { items } => "InputList { items: "@ + list_text(
            items@.map_values(|d: InputDeviceInfo| device_text(d)),
        ) + " }"@,
        Response::PreviewUrl { url } => "PreviewUrl { url: "@ + (match url {
            Some(u) => "Some("@ + quoted(u@) + ")"@,
            None => "None"@,
        }) + " }"@,
    }
}

fn push_hex(out: &mut String, n: u32)
    ensures
        final(out)@ == old(out)@ + hex(n as nat),
    decreases n,
{
    if n >= 16 {
        push_hex(out, n / 16);
    }
    let d = n % 16;
    let c = if d < 10 {
        ((48 + d) as u8) as char
    } else {
        ((87 + d) as u8) as char
    };
    assert(c == hex_digit(d as nat));
    push_char(out, c);
}

fn push_quoted(out: &mut String, s: &str)
    ensures
        final(out)@ == old(out)@ + quoted(s@),
{
    let cs = chars_of(s);
    let ghost start = out@;
    push_char(out, '"');
    let mut i: usize = 0;
    while i < cs.len()
        invariant
            i <= cs@.len(),
            cs@ == s@,
            out@ == start + seq!['"'] + escaped(cs@.take(i as int)),
        decreases cs@.len() - i,
    {
        let c = cs[i];
        assert(cs@.take(i + 1).drop_last() =~= cs@.take(i as int));
        let ghost before = out@;
        proof {
            reveal_strlit("\\0");
            reveal_strlit("\\t");
            reveal_strlit("\\n");
            reveal_strlit("\\r");
            reveal_strlit("\\\\");
            reveal_strlit("\\\"");
            reveal_strlit("\\u{");
        }
        if c == '\0' {
            out.append("\\0");
            assert(out@ =~= before + escape_char(c));
        } else if c == '\t' {
            out.append("\\t");
            assert(out@ =~= before + escape_char(c));
        } else if c == '\n' {
            out.append("\\n");
            assert(out@ =~= before + escape_char(c));
        } else if c == '\r' {
            out.append("\\r");
            assert(out@ =~= before + escape_char(c));
        } else if c == '\\' {
            out.append("\\\\");
            assert(out@ =~= before + escape_char(c));
        } else if c == '"' {
            out.append("\\\"");
            assert(out@ =~= before + escape_char(c));
        } else if (c as u32) < 0x20 || c as u32 == 0x7f {
            out.append("\\u{");
            push_hex(out, c as u32);
            push_char(out, '}');
            assert(out@ =~= before + escape_char(c));
        } else {
            push_char(out, c);
            assert(out@ =~= before + escape_char(c));
        }
        i = i + 1;
    }
    assert(cs@.take(cs@.len() as int) =~= cs@);
    push_char(out, '"');
    assert(out@ =~= start + quoted(s@));
}

fn push_decimal(out: &mut String, n: u32)
    ensures
        final(out)@ == old(out)@ + decimal(n as nat),
{
    out.append(string_from(&decimal_chars(n as u64)).as_str());
}

fn push_bool(out: &mut String, b: bool)
    ensures
        final(out)@ == old(out)@ + bool_text(b),
{
    if b {
        out.append("true");
    } else {
        out.append("false");
    }
}

proof fn lemma_joined_push(items: Seq<Seq<char>>, x: Seq<char>)
    ensures
        joined(items.push(x)) == (if items.len() == 0 {
            x
        } else {
            joined(items) + ", "@ + x
        }),
{
    assert(items.push(x).drop_last() =~= items);
}

fn push_strings(out: &mut String, v: &Vec<String>)
    ensures
        final(out)@ == old(out)@ + strings_text(v@),
{
    let ghost start = out@;
    let ghost f = |s: String| quoted(s@);
    out.append("[");
    let mut i: usize = 0;
    while i < v.len()
        invariant
            i <= v@.len(),
            f == (|s: String| quoted(s@)),
            out@ == start + "["@ + joined(v@.take(i as int).map_values(f)),
        decreases v@.len() - i,
    {
        let ghost before = out@;
        if i > 0 {
            out.append(", ");
        }
        push_quoted(out, v[i].as_str());
        proof {
            assert(v@.take(i + 1).map_values(f) =~= v@.take(i as int).map_values(f).push(
                quoted(v@[i as int]@),
            ));
            lemma_joined_push(v@.take(i as int).map_values(f), quoted(v@[i as int]@));
        }
        i = i + 1;
    }
    assert(v@.take(v@.len() as int) =~= v@);
    out.append("]");
}

fn push_mode(out: &mut String, m: &Mode)
    ensures
        final(out)@ == old(out)@ + mode_text(*m),
{
    let ghost start = out@;
    out.append("Mode { width: ");
    push_decimal(out, m.width);
    out.append(", height: ");
    push_decimal(out, m.height);
    out.append(", fps_num: ");
    push_decimal(out, m.fps_num);
    out.append(", fps_den: ");
    push_decimal(out, m.fps_den);
    out.append(" }");
    assert(out@ =~= start + mode_text(*m));
}

fn push_modes(out: &mut String, v: &Vec<Mode>)
    ensures
        final(out)@ == old(out)@ + list_text(v@.map_values(|m: Mode| mode_text(m))),
{
    let ghost start = out@;
    let ghost f = |m: Mode| mode_text(m);
    out.append("[");
    let mut i: usize = 0;
    while i < v.len()
        invariant
            i <= v@.len(),
            f == (|m: Mode| mode_text(m)),
            out@ == start + "["@ + joined(v@.take(i as int).map_values(f)),
        decreases v@.len() - i,
    {
        if i > 0 {
            out.append(", ");
        }
        push_mode(out, &v[i]);
        proof {
            assert(v@.take(i + 1).map_values(f) =~= v@.take(i as int).map_values(f).push(
                mode_text(v@[i as int]),
            ));
            lemma_joined_push(v@.take(i as int).map_values(f), mode_text(v@[i as int]));
        }
        i = i + 1;
    }
    assert(v@.take(v@.len() as int) =~= v@);
    out.append("]");
    assert(out@ =~= start + list_text(v@.map_values(f)));
}

#[verifier::rlimit(50)]
fn push_emoji(out: &mut String, e: &EmojiInfo)
    ensures
        final(out)@ == old(out)@ + emoji_text(*e),
{
    let ghost start = out@;
    out.append("EmojiInfo { id: ");
    push_quoted(out, e.id.as_str());
    out.append(", name: ");
    push_quoted(out, e.name.as_str());
    out.append(", glyph: ");
    push_quoted(out, e.glyph.as_str());
    out.append(", group: ");
    push_quoted(out, e.group.as_str());
    let ghost head = out@;
    assert(head =~= start + "EmojiInfo { id: "@ + quoted(e.id@) + ", name: "@ + quoted(e.name@)
        + ", glyph: "@ + quoted(e.glyph@) + ", group: "@ + quoted(e.group@));
    out.append(", keywords: ");
    push_strings(out, &e.keywords);
    out.append(", has_animated: ");
    push_bool(out, e.has_animated);
    out.append(", preview_path: ");
    push_quoted(out, e.preview_path.as_str());
    out.append(" }");
    assert(out@ =~= start + emoji_text(*e));
}

fn push_device(out: &mut String, d: &InputDeviceInfo)
    ensures
        final(out)@ == old(out)@ + device_text(*d),
{
    let ghost start = out@;
    out.append("InputDeviceInfo { device: ");
    push_quoted(out, d.device.as_str());
    out.append(", name: ");
    push_quoted(out, d.name.as_str());
    out.append(", modes: ");
    push_modes(out, &d.modes);
    out.append(" }");
    assert(out@ =~= start + device_text(*d));
}

fn push_emojis(out: &mut String, v: &Vec<EmojiInfo>)
    ensures
        final(out)@ == old(out)@ + list_text(v@.map_values(|e: EmojiInfo| emoji_text(e))),
{
    let ghost start = out@;
    let ghost f = |e: EmojiInfo| emoji_text(e);
    out.append("[");
    let mut i: usize = 0;
    while i < v.len()
        invariant
            i <= v@.len(),
            f == (|e: EmojiInfo| emoji_text(e)),
            out@ == start + "["@ + joined(v@.take(i as int).map_values(f)),
        decreases v@.len() - i,
    {
        if i > 0 {
            out.append(", ");
        }
        push_emoji(out, &v[i]);
        proof {
            assert(v@.take(i + 1).map_values(f) =~= v@.take(i as int).map_values(f).push(
                emoji_text(v@[i as int]),
            ));
            lemma_joined_push(v@.take(i as int).map_values(f), emoji_text(v@[i as int]));
        }
        i = i + 1;
    }
    assert(v@.take(v@.len() as int) =~= v@);
    out.append("]");
    assert(out@ =~= start + list_text(v@.map_values(f)));
}

fn push_devices(out: &mut String, v: &Vec<InputDeviceInfo>)
    ensures
        final(out)@ == old(out)@ + list_text(v@.map_values(|d: InputDeviceInfo| device_text(d))),
{
    let ghost start = out@;
    let ghost f = |d: InputDeviceInfo| device_text(d);
    out.append("[");
    let mut i: usize = 0;
    while i < v.len()
        invariant
            i <= v@.len(),
            f == (|d: InputDeviceInfo| device_text(d)),
            out@ == start + "["@ + joined(v@.take(i as int).map_values(f)),
        decreases v@.len() - i,
    {
        if i > 0 {
            out.append(", ");
        }
        push_device(out, &v[i]);
        proof {
            assert(v@.take(i + 1).map_values(f) =~= v@.take(i as int).map_values(f).push(
                device_text(v@[i as int]),
            ));
            lemma_joined_push(v@.take(i as int).map_values(f), device_text(v@[i as int]));
        }
        i = i + 1;
    }
    assert(v@.take(v@.len() as int) =~= v@);
    out.append("]");
    assert(out@ =~= start + list_text(v@.map_values(f)));
}

/// The text of a reply, as `Debug` writes it.
pub fn render_response(r: &Response) -> (res: String)
    ensures
        res@ == response_text(*r),
{
    let mut out = String::new();
    match r {
        Response::Accepted => {
            out.append("Ok");
        },
        Response::Error { message } => {
            out.append("Error { message: ");
            push_quoted(&mut out, message.as_str());
            out.append(" }");
        },
        Response::EmojiList { items } => {
            out.append("EmojiList { items: ");
            push_emojis(&mut out, items);
            out.append(" }");
        },
        Response::SyncStatus { fetched, total, complete } => {
            out.append("SyncStatus { fetched: ");
            push_decimal(&mut out, *fetched);
            out.append(", total: ");
            push_decimal(&mut out, *total);
            out.append(", complete: ");
            push_bool(&mut out, *complete);
            out.append(" }");
        },
        Response::InputList { items } => {
            out.append("InputList { items: ");
            push_devices(&mut out, items);
            out.append(" }");
        },
        Response::PreviewUrl { url } => {
            out.append("PreviewUrl { url: ");
            match url {
                Some(u) => {
                    out.append("Some(");
                    push_quoted(&mut out, u.as_str());
                    out.append(")");
                },
                None => {
                    out.append("None");
                },
            }
            out.append(" }");
        },
    }
    assert(out@ =~= response_text(*r));
    out
}

} // verus!
