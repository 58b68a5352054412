//! Parsers for the text that `v4l2-ctl` prints: `--list-devices` (one
//! group per physical device, the first `/dev/video*` node of each group
//! being the capture node) and `--list-formats-ext` (raw capture modes),
//! plus the ordering of the modes a device offers.

use vstd::prelude::*;

use crate::protocol::{InputDeviceInfo, Mode};
use crate::text::{
    lemma_find_from_range,
    chars_of, ends_with, eq_chars, find_char,
    find_from, find_pat, find_pat_from, has_prefix, has_suffix, parse_u32, parse_u32_range,
    rfind_before, rfind_char, slice_of, string_from, trim_end_char, trim_end_char_chars, split_lines, starts_with, trim, trim_chars, views, lines,
};

verus! {

/// Formats that need a decoder; every other fourcc is raw.
pub open spec fn is_raw_format_spec(fourcc: Seq<char>) -> bool {
    !(fourcc == "MJPG"@ || fourcc == "MPEG"@ || fourcc == "H264"@ || fourcc == "HEVC"@
        || fourcc == "VP8"@ || fourcc == "VP9"@)
}

/// Whether a v4l2 fourcc denotes a raw pixel format the daemon's
/// `video/x-raw` capsfilter can negotiate without a decoder.
pub fn is_raw_format(fourcc: &str) -> (res: bool)
    ensures
        res == is_raw_format_spec(fourcc@),
{
    is_raw_format_chars(&chars_of(fourcc))
}

fn is_raw_format_chars(f: &[char]) -> (res: bool)
    ensures
        res == is_raw_format_spec(f@),
{
    !(eq_chars(f, &chars_of("MJPG")) || eq_chars(f, &chars_of("MPEG")) || eq_chars(
        f,
        &chars_of("H264"),
    ) || eq_chars(f, &chars_of("HEVC")) || eq_chars(f, &chars_of("VP8")) || eq_chars(
        f,
        &chars_of("VP9"),
    ))
}


/// The fourcc of a format header line such as `[0]: 'YUYV' (YUYV 4:2:2)`:
/// after a leading `'['`, the first `"]: "`, then a quote, the text up
/// to the next quote.
pub open spec fn format_header(t: Seq<char>) -> Option<Seq<char>> {
    if !(t.len() > 0 && t[0] == '[') {
        None
    } else {
        let k = find_pat_from(t, "]: "@, 1);
        let a = k + "]: "@.len();
        if k < 0 || !(a < t.len() && t[a] == '\'') {
            None
        } else {
            let q = find_from(t, '\'', a + 1);
            if q < 0 {
                None
            } else {
                Some(t.subrange(a + 1, q))
            }
        }
    }
}

/// The resolution of a line such as `Size: Discrete 1280x720`.
pub open spec fn size_line(t: Seq<char>) -> Option<(u32, u32)> {
    let p = "Size: Discrete "@;
    if !starts_with(t, p) {
        None
    } else {
        let k = find_from(t, 'x', p.len() as int);
        if k < 0 {
            None
        } else {
            match (parse_u32(t.subrange(p.len() as int, k)), parse_u32(t.subrange(k + 1, t.len() as int))) {
                (Some(w), Some(h)) => Some((w, h)),
                _ => None,
            }
        }
    }
}

/// The rate text of a line such as `Interval: Discrete 0.033s (30.000 fps)`:
/// the text after the last `'('`, less a final `" fps)"`.
pub open spec fn interval_rate(t: Seq<char>) -> Option<Seq<char>> {
    let open = rfind_before(t, '(', t.len() as int);
    let suffix = " fps)"@;
    if open < 0 || !ends_with(t.subrange(open + 1, t.len() as int), suffix) {
        None
    } else {
        Some(t.subrange(open + 1, t.len() - suffix.len()))
    }
}

/// An interval line listed under a raw format and a size: the size, and
/// the frame rate as the line writes it (the text of `"(30.000 fps)"`
/// between the bracket and `" fps)"`). Turning that text into a rational
/// is floating-point work and is left to the caller.
pub struct ListedRate {
    pub width: u32,
    pub height: u32,
    pub rate: String,
}

impl View for ListedRate {
    type V = (u32, u32, Seq<char>);

    open spec fn view(&self) -> (u32, u32, Seq<char>) {
        (self.width, self.height, self.rate@)
    }
}

pub open spec fn listed_views(v: Seq<ListedRate>) -> Seq<(u32, u32, Seq<char>)> {
    v.map_values(|e: ListedRate| e@)
}

/// What the mode scanner carries from line to line.
pub struct ModeScan {
    /// Fourcc of the current format section.
    pub fmt: Option<Seq<char>>,
    /// Resolution of the current size entry.
    pub size: Option<(u32, u32)>,
    /// Interval lines found so far, as (width, height, rate text).
    pub rates: Seq<(u32, u32, Seq<char>)>,
}

pub open spec fn interval_entry(st: ModeScan, t: Seq<char>) -> Option<(u32, u32, Seq<char>)> {
    match st.fmt {
        None => None,
        Some(f) => if !is_raw_format_spec(f) {
            None
        } else {
            match st.size {
                None => None,
                Some((w, h)) => match interval_rate(t) {
                    None => None,
                    Some(r) => Some((w, h, r)),
                },
            }
        },
    }
}

/// One line of `--list-formats-ext` output: a format header opens a
/// section (and forgets the size), a size line sets the size, and an
/// interval line under a raw format and a size adds its rate text.
pub open spec fn mode_scan_step(st: ModeScan, line: Seq<char>) -> ModeScan {
    let t = trim(line);
    match format_header(t) {
        Some(f) => ModeScan { fmt: Some(f), size: None, rates: st.rates },
        None => match size_line(t) {
            Some(sz) => ModeScan { fmt: st.fmt, size: Some(sz), rates: st.rates },
            None => if starts_with(t, "Interval: Discrete "@) {
                match interval_entry(st, t) {
                    Some(m) => ModeScan { fmt: st.fmt, size: st.size, rates: st.rates.push(m) },
                    None => st,
                }
            } else {
                st
            },
        },
    }
}

pub open spec fn mode_scan(ls: Seq<Seq<char>>) -> ModeScan
    decreases ls.len(),
{
    if ls.len() == 0 {
        ModeScan { fmt: None, size: None, rates: Seq::empty() }
    } else {
        mode_scan_step(mode_scan(ls.drop_last()), ls.last())
    }
}

proof fn lemma_step_keeps_prefix(st: ModeScan, p: Seq<(u32, u32, Seq<char>)>, line: Seq<char>)
    ensures
        mode_scan_step(ModeScan { fmt: st.fmt, size: st.size, rates: p + st.rates }, line) == (
        ModeScan {
            fmt: mode_scan_step(st, line).fmt,
            size: mode_scan_step(st, line).size,
            rates: p + mode_scan_step(st, line).rates,
        }),
{
    let t = trim(line);
    let wide = ModeScan { fmt: st.fmt, size: st.size, rates: p + st.rates };
    assert(interval_entry(wide, t) == interval_entry(st, t));
    if let Some(m) = interval_entry(st, t) {
        assert((p + st.rates).push(m) =~= p + st.rates.push(m));
    }
}

proof fn lemma_sections_scan_alone(before: Seq<Seq<char>>, section: Seq<Seq<char>>)
    requires
        section.len() > 0,
        format_header(trim(section[0])) is Some,
    ensures
        mode_scan(before + section) == (ModeScan {
            fmt: mode_scan(section).fmt,
            size: mode_scan(section).size,
            rates: mode_scan(before).rates + mode_scan(section).rates,
        }),
    decreases section.len(),
{
    let all = before + section;
    assert(all.drop_last() =~= before + section.drop_last());
    assert(all.last() == section.last());
    if section.len() == 1 {
        assert(section.drop_last() =~= Seq::<Seq<char>>::empty());
        assert(before + section.drop_last() =~= before);
        assert(mode_scan(before).rates + Seq::<(u32, u32, Seq<char>)>::empty() =~= mode_scan(before).rates);
    } else {
        let rest = section.drop_last();
        assert(rest[0] == section[0]);
        lemma_sections_scan_alone(before, rest);
        lemma_step_keeps_prefix(mode_scan(rest), mode_scan(before).rates, section.last());
    }
}

/// A format header line opens a new section whatever came before it:
/// it sets the current format, clears the current size, and lists no
/// mode.
pub proof fn law_format_header_opens_a_section(before: Seq<Seq<char>>, line: Seq<char>, f: Seq<char>)
    requires
        format_header(trim(line)) == Some(f),
    ensures
        mode_scan(before.push(line)) == (ModeScan { fmt: Some(f), size: None, rates: mode_scan(before).rates }),
{
    assert(before.push(line).drop_last() =~= before);
}

/// The modes a listing gives for its sections from a format header on
/// do not depend on the sections before: scanning `before` and then
/// `sections` lists what `before` lists alone, then what `sections`
/// lists alone, and ends in the same format and size as `sections`
/// alone.
pub proof fn law_sections_scan_alone(before: Seq<Seq<char>>, sections: Seq<Seq<char>>)
    requires
        sections.len() > 0,
        format_header(trim(sections[0])) is Some,
    ensures
        mode_scan(before + sections).rates == mode_scan(before).rates + mode_scan(sections).rates,
        mode_scan(before + sections).fmt == mode_scan(sections).fmt,
        mode_scan(before + sections).size == mode_scan(sections).size,
{
    lemma_sections_scan_alone(before, sections);
}

proof fn lemma_compressed_section(section: Seq<Seq<char>>, f: Seq<char>)
    requires
        section.len() > 0,
        format_header(trim(section[0])) == Some(f),
        !is_raw_format_spec(f),
        forall|i: int| 1 <= i < section.len() ==> format_header(trim(#[trigger] section[i])) is None,
    ensures
        mode_scan(section).rates.len() == 0,
        mode_scan(section).fmt == Some(f),
    decreases section.len(),
{
    if section.len() > 1 {
        let rest = section.drop_last();
        assert(rest[0] == section[0]);
        assert forall|i: int| 1 <= i < rest.len() implies format_header(trim(#[trigger] rest[i])) is None by {
            assert(rest[i] == section[i]);
        }
        lemma_compressed_section(rest, f);
        assert(format_header(trim(section[section.len() - 1])) is None);
        let st = mode_scan(rest);
        assert(section.drop_last() == rest);
        assert(mode_scan(section) == mode_scan_step(st, section.last()));
        assert(interval_entry(st, trim(section.last())) is None);
    } else {
        assert(section.drop_last() =~= Seq::<Seq<char>>::empty());
        assert(mode_scan(section.drop_last()).rates.len() == 0);
    }
}

/// A section under a compressed format (MJPG, MPEG, H264, HEVC, VP8,
/// VP9) lists no mode, whatever sizes and intervals it holds.
pub proof fn law_compressed_sections_list_nothing(section: Seq<Seq<char>>, f: Seq<char>)
    requires
        section.len() > 0,
        format_header(trim(section[0])) == Some(f),
        !is_raw_format_spec(f),
        forall|i: int| 1 <= i < section.len() ==> format_header(trim(#[trigger] section[i])) is None,
    ensures
        mode_scan(section).rates.len() == 0,
{
    lemma_compressed_section(section, f);
}

/// An interval line under a raw format and a size lists that size with
/// the line's rate text, after what came before.
pub proof fn law_interval_lists_its_size_and_rate(before: Seq<Seq<char>>, line: Seq<char>, w: u32, h: u32)
    requires
        mode_scan(before).fmt matches Some(f) && is_raw_format_spec(f),
        mode_scan(before).size == Some((w, h)),
        format_header(trim(line)) is None,
        size_line(trim(line)) is None,
        starts_with(trim(line), "Interval: Discrete "@),
        interval_rate(trim(line)) is Some,
    ensures
        mode_scan(before.push(line)).rates == mode_scan(before).rates.push(
            (w, h, interval_rate(trim(line))->0),
        ),
        mode_scan(before.push(line)).size == Some((w, h)),
{
    assert(before.push(line).drop_last() =~= before);
}

/// The interval lines of raw capture modes that `v4l2-ctl
/// --list-formats-ext` output lists, in order.
pub open spec fn scan_modes_spec(text: Seq<char>) -> Seq<(u32, u32, Seq<char>)> {
    mode_scan(lines(text)).rates
}

/// The modes of `listed`, each with the rational that `rates` gives for
/// its rate text, in order; an entry whose rate is `None` (text that is
/// no number) gives no mode.
pub open spec fn rated_modes_spec(listed: Seq<(u32, u32, Seq<char>)>, rates: Seq<Option<(u32, u32)>>) -> Seq<Mode>
    decreases listed.len(),
{
    if listed.len() == 0 || rates.len() == 0 {
        Seq::empty()
    } else {
        let prev = rated_modes_spec(listed.drop_last(), rates.drop_last());
        match rates.last() {
            Some((n, d)) => prev.push(
                Mode { width: listed.last().0, height: listed.last().1, fps_num: n, fps_den: d },
            ),
            None => prev,
        }
    }
}

fn format_header_exec(t: &[char]) -> (res: Option<Vec<char>>)
    ensures
        match res {
            Some(v) => format_header(t@) == Some(v@),
            None => format_header(t@) is None,
        },
{
    if !(t.len() > 0 && t[0] == '[') {
        return None;
    }
    let pat = chars_of("]: ");
    let k = match find_pat(t, &pat, 1) {
        None => {
            return None;
        },
        Some(k) => k,
    };
    let a = k + pat.len();
    if !(a < t.len() && t[a] == '\'') {
        return None;
    }
    match find_char(t, '\'', a + 1) {
        None => None,
        Some(q) => Some(slice_of(t, a + 1, q)),
    }
}

fn size_line_exec(t: &[char]) -> (res: Option<(u32, u32)>)
    ensures
        res == size_line(t@),
{
    let n = t.len();
    let p = chars_of("Size: Discrete ");
    if !has_prefix(t, &p) {
        return None;
    }
    let k = match find_char(t, 'x', p.len()) {
        None => {
            return None;
        },
        Some(k) => k,
    };
    match (parse_u32_range(t, p.len(), k), parse_u32_range(t, k + 1, t.len())) {
        (Some(w), Some(h)) => Some((w, h)),
        _ => None,
    }
}

fn interval_rate_exec(t: &[char]) -> (res: Option<Vec<char>>)
    ensures
        match res {
            Some(v) => interval_rate(t@) == Some(v@),
            None => interval_rate(t@) is None,
        },
{
    let n = t.len();
    let open = match rfind_char(t, '(') {
        None => {
            return None;
        },
        Some(o) => o,
    };
    let suffix = chars_of(" fps)");
    let tail = slice_of(t, open + 1, t.len());
    if !has_suffix(&tail, &suffix) {
        return None;
    }
    Some(slice_of(t, open + 1, t.len() - suffix.len()))
}

/// Every raw capture mode listed in `v4l2-ctl --list-formats-ext`
/// output, in the order listed, with its rate text. Modes of compressed
/// formats (MJPG, MPEG, H264, HEVC, VP8, VP9) are skipped.
pub fn scan_modes(text: &str) -> (res: Vec<ListedRate>)
    ensures
        listed_views(res@) == scan_modes_spec(text@),
{
    let chars = chars_of(text);
    let ls = split_lines(&chars);
    let ghost lv = views(ls@);
    let mut fmt: Option<Vec<char>> = None;
    let mut size: Option<(u32, u32)> = None;
    let mut modes: Vec<ListedRate> = Vec::new();
    let interval = chars_of("Interval: Discrete ");
    let mut i: usize = 0;
    while i < ls.len()
        invariant
            lv == views(ls@),
            lv == lines(text@),
            interval@ == "Interval: Discrete "@,
            i <= ls@.len(),
            ({
                let st = mode_scan(lv.take(i as int));
                &&& st.size == size
                &&& st.rates == listed_views(modes@)
                &&& match fmt {
                    Some(f) => st.fmt == Some(f@),
                    None => st.fmt is None,
                }
            }),
        decreases ls@.len() - i,
    {
        let ghost before = mode_scan(lv.take(i as int));
        assert(lv.take(i + 1).drop_last() =~= lv.take(i as int));
        assert(lv.take(i + 1).last() == ls@[i as int]@);
        let t = trim_chars(&ls[i]);
        match format_header_exec(&t) {
            Some(f) => {
                fmt = Some(f);
                size = None;
            },
            None => match size_line_exec(&t) {
                Some(sz) => {
                    size = Some(sz);
                },
                None => {
                    if has_prefix(&t, &interval) {
                        match &fmt {
                            None => {},
                            Some(f) => {
                                if is_raw_format_chars(f) {
                                    match size {
                                        None => {},
                                        Some((w, h)) => match interval_rate_exec(&t) {
                                            None => {},
                                            Some(r) => {
                                                let ghost before_v = listed_views(modes@);
                                                let e = ListedRate {
                                                    width: w,
                                                    height: h,
                                                    rate: string_from(&r),
                                                };
                                                modes.push(e);
                                                assert(listed_views(modes@) =~= before_v.push(
                                                    (w, h, r@),
                                                ));
                                            },
                                        },
                                    }
                                }
                            },
                        }
                    }
                },
            },
        }
        i = i + 1;
    }
    assert(lv.take(ls@.len() as int) =~= lv);
    modes
}


/// The non-empty pieces of a slash-separated path from index `i` on,
/// `"."` pieces left out.
pub open spec fn pieces_from(s: Seq<char>, i: int) -> Seq<Seq<char>>
    decreases s.len() - i,
{
    if i < 0 || i >= s.len() {
        Seq::empty()
    } else {
        let k = find_from(s, '/', i);
        proof {
            lemma_find_from_range(s, '/', i);
        }
        let e = if k < 0 {
            s.len() as int
        } else {
            k
        };
        let piece = s.subrange(i, e);
        let rest = if k < 0 {
            Seq::empty()
        } else {
            pieces_from(s, k + 1)
        };
        if piece.len() == 0 || piece == seq!['.'] {
            rest
        } else {
            seq![piece] + rest
        }
    }
}

/// What `Path` equality compares on Unix: whether the path is rooted,
/// whether it opens with a `"."` component, and its other components.
pub open spec fn path_components(s: Seq<char>) -> (bool, bool, Seq<Seq<char>>) {
    let rooted = s.len() > 0 && s[0] == '/';
    let cur_dir = !rooted && s.len() > 0 && s[0] == '.' && (s.len() == 1 || s[1] == '/');
    (rooted, cur_dir, pieces_from(s, 0))
}

/// `Path::eq`: the two paths have the same components.
pub open spec fn same_path(a: Seq<char>, b: Seq<char>) -> bool {
    path_components(a) == path_components(b)
}

fn pieces_exec(s: &[char]) -> (res: Vec<Vec<char>>)
    ensures
        views(res@) == pieces_from(s@, 0),
{
    let mut out: Vec<Vec<char>> = Vec::new();
    let mut i: usize = 0;
    while i < s.len()
        invariant
            i <= s@.len(),
            views(out@) + pieces_from(s@, i as int) == pieces_from(s@, 0),
        decreases s@.len() - i,
    {
        let ghost before = views(out@);
        let ghost i0 = i as int;
        proof {
            lemma_find_from_range(s@, '/', i as int);
        }
        let k = find_char(s, '/', i);
        let e = match k {
            None => s.len(),
            Some(k) => k,
        };
        let piece = slice_of(s, i, e);
        let dot = piece.len() == 1 && piece[0] == '.';
        assert(dot == (piece@ == seq!['.'])) by {
            if piece@.len() == 1 && piece@[0] == '.' {
                assert(piece@ =~= seq!['.']);
            }
        }
        let keep = !(piece.len() == 0 || dot);
        if keep {
            out.push(piece);
            assert(views(out@) =~= before + seq![piece@]);
        } else {
            assert(views(out@) =~= before);
        }
        match k {
            None => {
                i = s.len();
                assert(pieces_from(s@, i as int) =~= Seq::<Seq<char>>::empty());
            },
            Some(k) => {
                i = k + 1;
            },
        }
        if keep {
            assert(views(out@) + pieces_from(s@, i as int) =~= before + pieces_from(s@, i0));
        } else {
            assert(views(out@) + pieces_from(s@, i as int) =~= before + pieces_from(s@, i0));
        }
    }
    assert(views(out@) + pieces_from(s@, i as int) =~= views(out@));
    out
}


fn same_pieces(a: &Vec<Vec<char>>, b: &Vec<Vec<char>>) -> (res: bool)
    ensures
        res == (views(a@) == views(b@)),
{
    if a.len() != b.len() {
        assert(views(a@).len() != views(b@).len());
        return false;
    }
    let mut i: usize = 0;
    while i < a.len()
        invariant
            a@.len() == b@.len(),
            i <= a@.len(),
            forall|q: int| 0 <= q < i ==> a@[q]@ == b@[q]@,
        decreases a@.len() - i,
    {
        if !eq_chars(&a[i], &b[i]) {
            assert(views(a@)[i as int] != views(b@)[i as int]);
            return false;
        }
        i = i + 1;
    }
    assert(views(a@) =~= views(b@));
    true
}

/// `Path::eq` on two Unix paths.
pub fn same_path_chars(a: &[char], b: &[char]) -> (res: bool)
    ensures
        res == same_path(a@, b@),
{
    let rooted_a = a.len() > 0 && a[0] == '/';
    let rooted_b = b.len() > 0 && b[0] == '/';
    let cur_a = !rooted_a && a.len() > 0 && a[0] == '.' && (a.len() == 1 || a[1] == '/');
    let cur_b = !rooted_b && b.len() > 0 && b[0] == '.' && (b.len() == 1 || b[1] == '/');
    if rooted_a != rooted_b || cur_a != cur_b {
        return false;
    }
    same_pieces(&pieces_exec(a), &pieces_exec(b))
}

/// The label of a device group: the text before the last `'('`,
/// trimmed, or the whole text when there is none.
pub open spec fn friendly_name_spec(raw: Seq<char>) -> Seq<char> {
    let k = rfind_before(raw, '(', raw.len() as int);
    if k < 0 {
        raw
    } else {
        trim(raw.take(k))
    }
}

/// Trims the `(bus-info)` suffix v4l2-ctl appends so a device shows as
/// `"Logitech BRIO"` instead of `"Logitech BRIO (usb-0000:00:14.0-6)"`.
pub fn friendly_name(raw: &str) -> (res: String)
    ensures
        res@ == friendly_name_spec(raw@),
{
    string_from(&friendly_name_chars(&chars_of(raw)))
}

fn friendly_name_chars(raw: &[char]) -> (res: Vec<char>)
    ensures
        res@ == friendly_name_spec(raw@),
{
    match rfind_char(raw, '(') {
        None => slice_of(raw, 0, raw.len()),
        Some(k) => {
            let prefix = slice_of(raw, 0, k);
            assert(prefix@ =~= raw@.take(k as int));
            trim_chars(&prefix)
        },
    }
}

/// What the device scanner carries from line to line.
pub struct DeviceScan {
    /// Header of the current group.
    pub group: Option<Seq<char>>,
    /// Whether the current group already gave its device.
    pub took: bool,
    /// Devices found so far, as (path, label).
    pub devices: Seq<(Seq<char>, Seq<char>)>,
}

/// One line of `--list-devices` output. An empty line closes the group;
/// an unindented line opens one; the first indented `/dev/video*` path
/// of a group, unless it is `exclude`, is the group's device.
pub open spec fn device_scan_step(st: DeviceScan, line: Seq<char>, exclude: Seq<char>) -> DeviceScan {
    if line.len() == 0 {
        DeviceScan { group: None, took: false, devices: st.devices }
    } else if line[0] == '\t' || line[0] == ' ' {
        let t = trim(line);
        if st.took || !starts_with(t, "/dev/video"@) || same_path(t, exclude) {
            st
        } else {
            match st.group {
                None => st,
                Some(name) => DeviceScan {
                    group: st.group,
                    took: true,
                    devices: st.devices.push((t, friendly_name_spec(name))),
                },
            }
        }
    } else {
        DeviceScan { group: Some(trim_end_char(line, ':')), took: false, devices: st.devices }
    }
}

pub open spec fn device_scan(ls: Seq<Seq<char>>, exclude: Seq<char>) -> DeviceScan
    decreases ls.len(),
{
    if ls.len() == 0 {
        DeviceScan { group: None, took: false, devices: Seq::empty() }
    } else {
        device_scan_step(device_scan(ls.drop_last(), exclude), ls.last(), exclude)
    }
}

/// The capture devices that `v4l2-ctl --list-devices` output lists:
/// one per group, other than `exclude`, each with no modes yet.
pub open spec fn parse_devices_spec(text: Seq<char>, exclude: Seq<char>) -> Seq<(Seq<char>, Seq<char>, Seq<Mode>)> {
    device_scan(lines(text), exclude).devices.map_values(
        |d: (Seq<char>, Seq<char>)| (d.0, d.1, Seq::<Mode>::empty()),
    )
}

pub open spec fn device_views(v: Seq<InputDeviceInfo>) -> Seq<(Seq<char>, Seq<char>, Seq<Mode>)> {
    v.map_values(|d: InputDeviceInfo| d@)
}

/// Capture devices listed in `v4l2-ctl --list-devices` output. For each
/// group the first `/dev/video*` path is taken (the others are metadata,
/// IR or depth siblings); the daemon's own loopback `exclude` is left
/// out. The prefix test is on the text, so `/dev/video10` counts as a
/// `/dev/video` path.
pub fn parse(text: &str, exclude: &str) -> (res: Vec<InputDeviceInfo>)
    ensures
        device_views(res@) == parse_devices_spec(text@, exclude@),
{
    let chars = chars_of(text);
    let ex = chars_of(exclude);
    let ls = split_lines(&chars);
    let ghost lv = views(ls@);
    let prefix = chars_of("/dev/video");
    let mut group: Option<Vec<char>> = None;
    let mut took = false;
    let mut devices: Vec<InputDeviceInfo> = Vec::new();
    let mut i: usize = 0;
    while i < ls.len()
        invariant
            lv == views(ls@),
            lv == lines(text@),
            prefix@ == "/dev/video"@,
            ex@ == exclude@,
            i <= ls@.len(),
            ({
                let st = device_scan(lv.take(i as int), exclude@);
                &&& st.took == took
                &&& device_views(devices@) == st.devices.map_values(
                    |d: (Seq<char>, Seq<char>)| (d.0, d.1, Seq::<Mode>::empty()),
                )
                &&& match group {
                    Some(g) => st.group == Some(g@),
                    None => st.group is None,
                }
            }),
        decreases ls@.len() - i,
    {
        let ghost st0 = device_scan(lv.take(i as int), exclude@);
        let ghost dv0 = device_views(devices@);
        assert(lv.take(i + 1).drop_last() =~= lv.take(i as int));
        assert(lv.take(i + 1).last() == ls@[i as int]@);
        let line = &ls[i];
        if line.len() == 0 {
            group = None;
            took = false;
        } else if line[0] == '\t' || line[0] == ' ' {
            if !took {
                let t = trim_chars(line);
                if has_prefix(&t, &prefix) && !same_path_chars(&t, &ex) {
                    match &group {
                        None => {},
                        Some(name) => {
                            let label = friendly_name_chars(name);
                            let dev = InputDeviceInfo {
                                device: string_from(&t),
                                name: string_from(&label),
                                modes: Vec::new(),
                            };
                            devices.push(dev);
                            took = true;
                            assert(device_views(devices@) =~= dv0.push((t@, label@, Seq::<Mode>::empty())));
                            assert(st0.devices.push((t@, label@)).map_values(
                                |d: (Seq<char>, Seq<char>)| (d.0, d.1, Seq::<Mode>::empty()),
                            ) =~= dv0.push((t@, label@, Seq::<Mode>::empty())));
                        },
                    }
                }
            }
        } else {
            group = Some(trim_end_char_chars(line, ':'));
            took = false;
        }
        i = i + 1;
    }
    assert(lv.take(ls@.len() as int) =~= lv);
    devices
}


/// `a` runs at a higher frame rate than `b`.
pub open spec fn fps_above(a: Mode, b: Mode) -> bool {
    a.fps_num as int * b.fps_den as int > b.fps_num as int * a.fps_den as int
}

/// `a` and `b` run at the same frame rate.
pub open spec fn fps_same(a: Mode, b: Mode) -> bool {
    a.fps_num as int * b.fps_den as int == b.fps_num as int * a.fps_den as int
}

/// `a` sorts strictly before `b`: wider, else taller, else faster.
pub open spec fn mode_before(a: Mode, b: Mode) -> bool {
    ||| a.width > b.width
    ||| a.width == b.width && a.height > b.height
    ||| a.width == b.width && a.height == b.height && fps_above(a, b)
}

/// `a` and `b` sort level with each other.
pub open spec fn mode_tied(a: Mode, b: Mode) -> bool {
    a.width == b.width && a.height == b.height && fps_same(a, b)
}

pub open spec fn modes_sorted(s: Seq<Mode>) -> bool {
    forall|i: int, j: int| 0 <= i < j < s.len() ==> !mode_before(#[trigger] s[j], #[trigger] s[i])
}

pub open spec fn tied_with(m: Mode) -> spec_fn(Mode) -> bool {
    |x: Mode| mode_tied(m, x)
}

/// `out` is `inp` sorted highest first by a stable sort: sorted, and
/// each set of level modes in the order `inp` has them (a set of level
/// modes is named by any mode with a positive denominator), and every
/// rate with a positive denominator.
pub open spec fn stable_sorted_from(out: Seq<Mode>, inp: Seq<Mode>) -> bool {
    &&& modes_sorted(out)
    &&& rates_defined(out)
    &&& forall|m: Mode| m.fps_den > 0 ==> #[trigger] out.filter(tied_with(m)) == inp.filter(tied_with(m))
}

/// Consecutive repeats collapsed to one, as `Vec::dedup` does.
pub open spec fn dedup_modes(s: Seq<Mode>) -> Seq<Mode>
    decreases s.len(),
{
    if s.len() <= 1 {
        s
    } else if s.last() == s[s.len() - 2] {
        dedup_modes(s.drop_last())
    } else {
        dedup_modes(s.drop_last()).push(s.last())
    }
}

pub open spec fn rates_defined(s: Seq<Mode>) -> bool {
    forall|i: int| 0 <= i < s.len() ==> (#[trigger] s[i]).fps_den > 0
}

proof fn lemma_fps_above_trans(a: Mode, b: Mode, c: Mode)
    requires
        a.fps_den > 0,
        b.fps_den > 0,
        c.fps_den > 0,
        fps_above(a, b) || fps_same(a, b),
        fps_above(b, c) || fps_same(b, c),
    ensures
        fps_above(a, b) || fps_above(b, c) ==> fps_above(a, c),
        fps_same(a, b) && fps_same(b, c) ==> fps_same(a, c),
{
    let an = a.fps_num as int;
    let ad = a.fps_den as int;
    let bn = b.fps_num as int;
    let bd = b.fps_den as int;
    let cn = c.fps_num as int;
    let cd = c.fps_den as int;
    assert(an * bd >= bn * ad);
    assert(bn * cd >= cn * bd);
    assert((an * bd) * cd >= (bn * ad) * cd) by (nonlinear_arith)
        requires
            an * bd >= bn * ad,
            cd > 0,
    ;
    assert((bn * cd) * ad >= (cn * bd) * ad) by (nonlinear_arith)
        requires
            bn * cd >= cn * bd,
            ad > 0,
    ;
    assert((an * bd) * cd == (an * cd) * bd) by (nonlinear_arith);
    assert((bn * ad) * cd == (bn * cd) * ad) by (nonlinear_arith);
    assert((cn * bd) * ad == (cn * ad) * bd) by (nonlinear_arith);
    if fps_above(a, b) {
        assert((an * bd) * cd > (bn * ad) * cd) by (nonlinear_arith)
            requires
                an * bd > bn * ad,
                cd > 0,
        ;
    }
    if fps_above(b, c) {
        assert((bn * cd) * ad > (cn * bd) * ad) by (nonlinear_arith)
            requires
                bn * cd > cn * bd,
                ad > 0,
        ;
    }
    assert((an * cd) * bd >= (cn * ad) * bd);
    if fps_above(a, b) || fps_above(b, c) {
        assert((an * cd) * bd > (cn * ad) * bd);
        assert(an * cd > cn * ad) by (nonlinear_arith)
            requires
                (an * cd) * bd > (cn * ad) * bd,
                bd > 0,
        ;
    }
    if fps_same(a, b) && fps_same(b, c) {
        assert((an * cd) * bd == (cn * ad) * bd);
        assert(an * cd == cn * ad) by (nonlinear_arith)
            requires
                (an * cd) * bd == (cn * ad) * bd,
                bd > 0,
        ;
    }
}

/// With positive denominators, "sorts before or level with" is a total
/// preorder and "sorts strictly before" its strict part.
proof fn lemma_mode_order(a: Mode, b: Mode, c: Mode)
    requires
        a.fps_den > 0,
        b.fps_den > 0,
        c.fps_den > 0,
    ensures
        !mode_before(a, a),
        mode_tied(a, a),
        mode_tied(a, b) ==> mode_tied(b, a),
        !mode_before(a, b) && !mode_before(b, a) ==> mode_tied(a, b),
        mode_before(a, b) ==> !mode_tied(a, b) && !mode_before(b, a),
        !mode_before(b, a) && !mode_before(c, b) ==> !mode_before(c, a),
        mode_before(a, b) && !mode_before(c, b) ==> mode_before(a, c),
        !mode_before(b, a) && mode_before(b, c) ==> mode_before(a, c),
        mode_tied(a, b) && mode_tied(b, c) ==> mode_tied(a, c),
{
    if !mode_before(b, a) && !mode_before(c, b) {
        if a.width == b.width && b.width == c.width && a.height == b.height && b.height
            == c.height {
            assert(fps_above(a, b) || fps_same(a, b));
            assert(fps_above(b, c) || fps_same(b, c));
            lemma_fps_above_trans(a, b, c);
        }
    }
    if mode_before(a, b) && !mode_before(c, b) {
        if a.width == b.width && b.width == c.width && a.height == b.height && b.height
            == c.height {
            assert(fps_above(b, c) || fps_same(b, c));
            lemma_fps_above_trans(a, b, c);
        }
    }
    if !mode_before(b, a) && mode_before(b, c) {
        if a.width == b.width && b.width == c.width && a.height == b.height && b.height
            == c.height {
            assert(fps_above(a, b) || fps_same(a, b));
            lemma_fps_above_trans(a, b, c);
        }
    }
    if mode_tied(a, b) && mode_tied(b, c) {
        lemma_fps_above_trans(a, b, c);
    }
}

proof fn lemma_u32_product(x: u32, y: u32)
    ensures
        (x as int) * (y as int) <= u64::MAX,
{
    assert((x as int) * (y as int) <= 0xFFFF_FFFF * 0xFFFF_FFFF) by (nonlinear_arith)
        requires
            0 <= x <= 0xFFFF_FFFF,
            0 <= y <= 0xFFFF_FFFF,
    ;
}

fn mode_before_exec(a: &Mode, b: &Mode) -> (res: bool)
    ensures
        res == mode_before(*a, *b),
{
    proof {
        lemma_u32_product(a.fps_num, b.fps_den);
        lemma_u32_product(b.fps_num, a.fps_den);
    }
    a.width > b.width || (a.width == b.width && a.height > b.height) || (a.width == b.width
        && a.height == b.height && (a.fps_num as u64) * (b.fps_den as u64) > (b.fps_num as u64)
        * (a.fps_den as u64))
}

/// `inp` sorted highest first (resolution, then frame rate) by a stable
/// sort.
fn sort_modes(inp: &Vec<Mode>) -> (res: Vec<Mode>)
    requires
        rates_defined(inp@),
    ensures
        stable_sorted_from(res@, inp@),
        rates_defined(res@),
{
    let mut out: Vec<Mode> = Vec::new();
    let mut i: usize = 0;
    assert(inp@.take(0) =~= Seq::<Mode>::empty());
    while i < inp.len()
        invariant
            i <= inp@.len(),
            rates_defined(inp@),
            rates_defined(out@),
            stable_sorted_from(out@, inp@.take(i as int)),
        decreases inp@.len() - i,
    {
        let x = inp[i];
        let mut p: usize = 0;
        while p < out.len() && !mode_before_exec(&x, &out[p])
            invariant
                p <= out@.len(),
                forall|q: int| 0 <= q < p ==> !mode_before(x, #[trigger] out@[q]),
            decreases out@.len() - p,
        {
            p = p + 1;
        }
        let ghost old_out = out@;
        out.insert(p, x);
        let ghost left = old_out.take(p as int);
        let ghost right = old_out.skip(p as int);
        assert(old_out =~= left + right);
        assert(out@ =~= left + seq![x] + right);
        assert(inp@.take(i + 1) =~= inp@.take(i as int).push(x));
        proof {
            // Everything right of the insertion point sorts strictly after `x`.
            assert forall|q: int| 0 <= q < right.len() implies mode_before(
                x,
                #[trigger] right[q],
            ) by {
                assert(right[q] == old_out[p + q]);
                assert(mode_before(x, old_out[p as int]));
                if q > 0 {
                    assert(!mode_before(old_out[p + q], old_out[p as int]));
                    lemma_mode_order(x, old_out[p as int], old_out[p + q]);
                }
            }
            assert forall|a: int, b: int| 0 <= a < b < out@.len() implies !mode_before(
                #[trigger] out@[b],
                #[trigger] out@[a],
            ) by {
                if a < p && b == p {
                    assert(!mode_before(x, old_out[a]));
                } else if a == p && b > p {
                    assert(mode_before(x, right[b - p - 1]));
                    lemma_mode_order(x, out@[b], out@[b]);
                } else if a < p && b > p {
                    assert(out@[a] == old_out[a]);
                    assert(out@[b] == old_out[b - 1]);
                } else if b < p {
                    assert(out@[a] == old_out[a]);
                    assert(out@[b] == old_out[b]);
                } else {
                    assert(out@[a] == old_out[a - 1]);
                    assert(out@[b] == old_out[b - 1]);
                }
            }
            assert forall|m: Mode| m.fps_den > 0 implies #[trigger] out@.filter(tied_with(m)) == inp@.take(i + 1).filter(
                tied_with(m),
            ) by {
                let f = tied_with(m);
                Seq::filter_distributes_over_add(left + seq![x], right, f);
                Seq::filter_distributes_over_add(left, seq![x], f);
                Seq::filter_distributes_over_add(left, right, f);
                assert(old_out.filter(f) == inp@.take(i as int).filter(f));
                inp@.take(i as int).lemma_filter_push(x, f);
                Seq::<Mode>::empty().lemma_filter_push(x, f);
                assert(Seq::<Mode>::empty().push(x) =~= seq![x]);
                assert(Seq::<Mode>::empty().filter(f) =~= Seq::<Mode>::empty());
                if f(x) {
                    assert forall|q: int| 0 <= q < right.len() implies !f(#[trigger] right[q]) by {
                        assert(mode_before(x, right[q]));
                        lemma_mode_order(m, x, right[q]);
                        lemma_mode_order(x, right[q], right[q]);
                        if mode_tied(m, right[q]) {
                            lemma_mode_order(right[q], m, x);
                            lemma_mode_order(m, right[q], right[q]);
                            lemma_mode_order(x, m, right[q]);
                        }
                    }
                    right.lemma_all_neg_filter_empty(f);
                    assert(left.filter(f) + seq![x] + right.filter(f) =~= (left.filter(f)
                        + right.filter(f)).push(x));
                } else {
                    assert(left.filter(f) + seq![x].filter(f) + right.filter(f) =~= left.filter(f)
                        + right.filter(f));
                }
            }
            assert forall|q: int| 0 <= q < out@.len() implies (#[trigger] out@[q]).fps_den > 0 by {
                if q < p {
                    assert(out@[q] == old_out[q]);
                } else if q > p {
                    assert(out@[q] == old_out[q - 1]);
                }
            }
        }
        i = i + 1;
    }
    assert(inp@.take(inp@.len() as int) =~= inp@);
    out
}

proof fn lemma_dedup_last(s: Seq<Mode>)
    requires
        s.len() > 0,
    ensures
        dedup_modes(s).len() > 0,
        dedup_modes(s).last() == s.last(),
    decreases s.len(),
{
    if s.len() > 1 {
        lemma_dedup_last(s.drop_last());
    }
}

/// `Vec::dedup` on modes.
fn dedup_mode_list(s: &Vec<Mode>) -> (res: Vec<Mode>)
    ensures
        res@ == dedup_modes(s@),
{
    let mut out: Vec<Mode> = Vec::new();
    let mut i: usize = 0;
    while i < s.len()
        invariant
            i <= s@.len(),
            out@ == dedup_modes(s@.take(i as int)),
        decreases s@.len() - i,
    {
        let x = s[i];
        let ghost t = s@.take(i + 1);
        assert(t.drop_last() =~= s@.take(i as int));
        if i > 0 {
            proof {
                lemma_dedup_last(s@.take(i as int));
            }
            assert(t[t.len() - 2] == s@[i - 1]);
        }
        if out.len() == 0 || out[out.len() - 1] != x {
            out.push(x);
            if i == 0 {
                assert(out@ =~= t);
            }
        }
        i = i + 1;
    }
    assert(s@.take(s@.len() as int) =~= s@);
    out
}

/// The capture modes of a device as the daemon offers them: highest
/// resolution first, then highest frame rate, modes that sort level kept
/// in the order given, and consecutive repeats dropped.
pub fn order_modes(modes: Vec<Mode>) -> (res: Vec<Mode>)
    requires
        rates_defined(modes@),
    ensures
        exists|sorted: Seq<Mode>| stable_sorted_from(sorted, modes@) && res@ == dedup_modes(sorted),
        forall|m: Mode| #[trigger] res@.contains(m) <==> modes@.contains(m),
{
    let sorted = sort_modes(&modes);
    let res = dedup_mode_list(&sorted);
    proof {
        lemma_sorted_same_modes(sorted@, modes@);
        lemma_dedup_keeps_elements(sorted@);
    }
    res
}

/// A stable sort of modes with defined rates holds the same modes.
proof fn lemma_sorted_same_modes(out: Seq<Mode>, inp: Seq<Mode>)
    requires
        rates_defined(inp),
        stable_sorted_from(out, inp),
    ensures
        forall|m: Mode| #[trigger] out.contains(m) <==> inp.contains(m),
{
    assert forall|m: Mode| #[trigger] out.contains(m) implies inp.contains(m) by {
        let k = choose|k: int| 0 <= k < out.len() && out[k] == m;
        assert(out[k].fps_den > 0);
        assert(tied_with(m)(out[k]));
        out.lemma_filter_contains(tied_with(m), k);
        inp.lemma_filter_contains_rev(tied_with(m), m);
    }
    assert forall|m: Mode| #[trigger] inp.contains(m) implies out.contains(m) by {
        let k = choose|k: int| 0 <= k < inp.len() && inp[k] == m;
        assert(inp[k].fps_den > 0);
        assert(tied_with(m)(inp[k]));
        inp.lemma_filter_contains(tied_with(m), k);
        out.lemma_filter_contains_rev(tied_with(m), m);
    }
}


/// The modes of `listed`, each with the rate that `rates` holds at the
/// same index; entries whose rate is `None` are left out.
pub fn rated_modes(listed: &[ListedRate], rates: &[Option<(u32, u32)>]) -> (res: Vec<Mode>)
    requires
        listed@.len() == rates@.len(),
    ensures
        res@ == rated_modes_spec(listed_views(listed@), rates@),
{
    let ghost lv = listed_views(listed@);
    let mut out: Vec<Mode> = Vec::new();
    let mut i: usize = 0;
    while i < listed.len()
        invariant
            i <= listed@.len(),
            listed@.len() == rates@.len(),
            lv == listed_views(listed@),
            out@ == rated_modes_spec(lv.take(i as int), rates@.take(i as int)),
        decreases listed@.len() - i,
    {
        assert(lv.take(i + 1).drop_last() =~= lv.take(i as int));
        assert(rates@.take(i + 1).drop_last() =~= rates@.take(i as int));
        assert(lv.take(i + 1).last() == listed@[i as int]@);
        match rates[i] {
            Some((n, d)) => {
                out.push(Mode { width: listed[i].width, height: listed[i].height, fps_num: n, fps_den: d });
            },
            None => {},
        }
        i = i + 1;
    }
    assert(lv.take(listed@.len() as int) =~= lv);
    assert(rates@.take(listed@.len() as int) =~= rates@);
    out
}

/// Every rate in `rates` has a positive denominator.
pub open spec fn rates_positive(rates: Seq<Option<(u32, u32)>>) -> bool {
    forall|i: int| 0 <= i < rates.len() ==> (#[trigger] rates[i] matches Some((n, d)) ==> d > 0)
}

proof fn lemma_rated_rates_defined(listed: Seq<(u32, u32, Seq<char>)>, rates: Seq<Option<(u32, u32)>>)
    requires
        rates_positive(rates),
    ensures
        rates_defined(rated_modes_spec(listed, rates)),
    decreases listed.len(),
{
    if listed.len() > 0 && rates.len() > 0 {
        assert(rates_positive(rates.drop_last())) by {
            assert forall|i: int| 0 <= i < rates.drop_last().len() implies (#[trigger] rates.drop_last()[i] matches Some((n, d)) ==> d > 0) by {
                assert(rates.drop_last()[i] == rates[i]);
            }
        }
        lemma_rated_rates_defined(listed.drop_last(), rates.drop_last());
        assert(rates[rates.len() - 1] == rates.last());
        let prev = rated_modes_spec(listed.drop_last(), rates.drop_last());
        let all = rated_modes_spec(listed, rates);
        assert forall|i: int| 0 <= i < all.len() implies (#[trigger] all[i]).fps_den > 0 by {
            if i < prev.len() {
                assert(all[i] == prev[i]);
            }
        }
    }
}

/// The raw capture modes of a listing as the daemon offers them: each
/// listed interval with the rate `rates` gives for its text (none where
/// that is `None`), highest resolution first, then highest frame rate,
/// with consecutive repeats dropped. The result holds exactly the modes
/// so rated.
pub fn modes_from_listing(listed: &[ListedRate], rates: &[Option<(u32, u32)>]) -> (res: Vec<Mode>)
    requires
        listed@.len() == rates@.len(),
        rates_positive(rates@),
    ensures
        exists|sorted: Seq<Mode>|
            stable_sorted_from(sorted, rated_modes_spec(listed_views(listed@), rates@))
                && res@ == dedup_modes(sorted),
        forall|m: Mode| #[trigger] res@.contains(m) <==> rated_modes_spec(listed_views(listed@), rates@).contains(m),
{
    let modes = rated_modes(listed, rates);
    proof {
        lemma_rated_rates_defined(listed_views(listed@), rates@);
    }
    order_modes(modes)
}

/// No mode directly follows an equal one.
pub open spec fn no_adjacent_repeats(s: Seq<Mode>) -> bool {
    forall|i: int| 0 <= i < s.len() - 1 ==> #[trigger] s[i] != s[i + 1]
}

proof fn lemma_dedup_keeps_elements(s: Seq<Mode>)
    ensures
        forall|x: Mode| #[trigger] dedup_modes(s).contains(x) <==> s.contains(x),
    decreases s.len(),
{
    if s.len() > 1 {
        let r = s.drop_last();
        let d = dedup_modes(s);
        let dr = dedup_modes(r);
        lemma_dedup_keeps_elements(r);
        assert forall|x: Mode| s.contains(x) implies #[trigger] d.contains(x) by {
            let k = choose|k: int| 0 <= k < s.len() && s[k] == x;
            if s.last() == s[s.len() - 2] {
                let j = if k == s.len() - 1 { s.len() - 2 } else { k };
                assert(r[j] == x);
                assert(r.contains(x));
                assert(dr.contains(x));
            } else if k < s.len() - 1 {
                assert(r[k] == x);
                assert(r.contains(x));
                assert(dr.contains(x));
                let i = choose|i: int| 0 <= i < dr.len() && dr[i] == x;
                assert(d[i] == x);
            } else {
                assert(d[d.len() - 1] == x);
            }
        }
        assert forall|x: Mode| #[trigger] d.contains(x) implies s.contains(x) by {
            let i = choose|i: int| 0 <= i < d.len() && d[i] == x;
            if s.last() != s[s.len() - 2] && i == d.len() - 1 {
                assert(s[s.len() - 1] == x);
            } else {
                assert(dr[i] == x);
                assert(dr.contains(x));
                assert(r.contains(x));
                let j = choose|j: int| 0 <= j < r.len() && r[j] == x;
                assert(s[j] == x);
            }
        }
    }
}

proof fn lemma_dedup_sorted(s: Seq<Mode>)
    requires
        modes_sorted(s),
    ensures
        modes_sorted(dedup_modes(s)),
        no_adjacent_repeats(dedup_modes(s)),
    decreases s.len(),
{
    if s.len() > 1 {
        let r = s.drop_last();
        assert(modes_sorted(r)) by {
            assert forall|i: int, j: int| 0 <= i < j < r.len() implies !mode_before(#[trigger] r[j], #[trigger] r[i]) by {
                assert(r[i] == s[i] && r[j] == s[j]);
            }
        }
        lemma_dedup_sorted(r);
        lemma_dedup_keeps_elements(r);
        lemma_dedup_last(r);
        if s.last() != s[s.len() - 2] {
            let d = dedup_modes(r);
            let e = d.push(s.last());
            assert(e == dedup_modes(s));
            assert forall|i: int, j: int| 0 <= i < j < e.len() implies !mode_before(#[trigger] e[j], #[trigger] e[i]) by {
                if j == e.len() - 1 {
                    assert(d.contains(e[i]));
                    assert(r.contains(e[i]));
                    let k = choose|k: int| 0 <= k < r.len() && r[k] == e[i];
                    assert(s[k] == e[i]);
                    assert(s[s.len() - 1] == e[j]);
                } else {
                    assert(e[i] == d[i] && e[j] == d[j]);
                }
            }
            assert forall|i: int| 0 <= i < e.len() - 1 implies #[trigger] e[i] != e[i + 1] by {
                if i == e.len() - 2 {
                    assert(e[i] == d.last());
                } else {
                    assert(e[i] == d[i] && e[i + 1] == d[i + 1]);
                }
            }
        }
    }
}

/// The modes a device is offered with are in order, highest first, no
/// mode is listed twice in a row, and they are exactly the modes the
/// listing reports.
pub proof fn law_listing_offers_every_mode_in_order(modes: Seq<Mode>, sorted: Seq<Mode>)
    requires
        rates_defined(modes),
        stable_sorted_from(sorted, modes),
    ensures
        modes_sorted(dedup_modes(sorted)),
        no_adjacent_repeats(dedup_modes(sorted)),
        forall|m: Mode| #[trigger] dedup_modes(sorted).contains(m) <==> modes.contains(m),
{
    lemma_dedup_sorted(sorted);
    lemma_dedup_keeps_elements(sorted);
    lemma_sorted_same_modes(sorted, modes);
}

proof fn lemma_scanned_devices(ls: Seq<Seq<char>>, exclude: Seq<char>)
    ensures
        forall|i: int|
            0 <= i < device_scan(ls, exclude).devices.len() ==> starts_with(
                (#[trigger] device_scan(ls, exclude).devices[i]).0,
                "/dev/video"@,
            ) && !same_path(device_scan(ls, exclude).devices[i].0, exclude),
    decreases ls.len(),
{
    if ls.len() > 0 {
        lemma_scanned_devices(ls.drop_last(), exclude);
        let st = device_scan(ls.drop_last(), exclude);
        let next = device_scan(ls, exclude);
        assert forall|i: int| 0 <= i < next.devices.len() implies starts_with(
            (#[trigger] next.devices[i]).0,
            "/dev/video"@,
        ) && !same_path(next.devices[i].0, exclude) by {
            if i < st.devices.len() {
                assert(next.devices[i] == st.devices[i]);
            }
        }
    }
}

/// Every device offered is a `/dev/video*` path and none is the
/// daemon's own output, whichever way that path is written.
pub proof fn law_listed_devices_exclude_output(text: Seq<char>, exclude: Seq<char>)
    ensures
        forall|i: int|
            0 <= i < parse_devices_spec(text, exclude).len() ==> starts_with(
                (#[trigger] parse_devices_spec(text, exclude)[i]).0,
                "/dev/video"@,
            ) && !same_path(parse_devices_spec(text, exclude)[i].0, exclude),
{
    lemma_scanned_devices(lines(text), exclude);
    let d = device_scan(lines(text), exclude).devices;
    assert forall|i: int| 0 <= i < parse_devices_spec(text, exclude).len() implies starts_with(
        (#[trigger] parse_devices_spec(text, exclude)[i]).0,
        "/dev/video"@,
    ) && !same_path(parse_devices_spec(text, exclude)[i].0, exclude) by {
        assert(parse_devices_spec(text, exclude)[i].0 == d[i].0);
    }
}

} // verus!
