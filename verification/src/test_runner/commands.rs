//! What the commands write: pictures, sound, dumps and overlays.

use vstd::prelude::*;

use crate::scaling::cell_graph::{in_range, neighbors_in_range, ControlPoint};
use crate::scaling::raster::{edge_colors, get_edge_colors, is_end};
use crate::test_runner::util::KeyEvent;
use crate::text::{
    chars_of, decimal, ends_with, has_suffix, hex2, push_char, push_decimal, push_hex2, push_signed,
    same, signed_decimal,
};

verus! {

// ── Pictures ──

/// Red, green and blue of a pixel.
pub open spec fn rgb_of(pixel: u32) -> Seq<u8> {
    seq![
        (pixel as int / 0x1_0000 % 256) as u8,
        (pixel as int / 0x100 % 256) as u8,
        (pixel as int % 256) as u8,
    ]
}

/// The bytes of the first `n` pixels, three for each.
pub open spec fn rgb_data(px: Seq<u32>, n: nat) -> Seq<u8>
    decreases n,
{
    if n == 0 {
        seq![]
    } else {
        rgb_data(px, (n - 1) as nat) + rgb_of(px[n - 1])
    }
}

/// The bytes of a picture, three for each pixel.
pub fn rgb_bytes(pixels: &[u32]) -> (r: Vec<u8>)
    ensures
        r@ == rgb_data(pixels@, pixels@.len()),
{
    let mut r: Vec<u8> = Vec::new();
    let mut i: usize = 0;
    while i < pixels.len()
        invariant
            i <= pixels@.len(),
            r@ == rgb_data(pixels@, i as nat),
        decreases pixels@.len() - i,
    {
        let p: u32 = pixels[i];
        let ghost before = r@;
        r.push((p / 0x1_0000 % 256) as u8);
        r.push((p / 0x100 % 256) as u8);
        r.push((p % 256) as u8);
        i += 1;
        assert(r@ =~= before + rgb_of(p));
    }
    r
}

/// The opaque pixel of four bytes, of which the last is left out.
pub open spec fn argb_of(rgba: Seq<u8>, i: int) -> u32 {
    (0xFF00_0000 + rgba[4 * i] * 0x1_0000 + rgba[4 * i + 1] * 0x100 + rgba[4 * i + 2]) as u32
}

/// The pixels of a picture given by four bytes for each.
pub fn argb_pixels(rgba: &[u8]) -> (r: Vec<u32>)
    requires
        rgba@.len() % 4 == 0,
    ensures
        r@ == Seq::new((rgba@.len() / 4) as nat, |i: int| argb_of(rgba@, i)),
{
    let n: usize = rgba.len() / 4;
    let mut r: Vec<u32> = Vec::new();
    let mut i: usize = 0;
    while i < n
        invariant
            i <= n,
            4 * n == rgba@.len() <= usize::MAX,
            r@.len() == i,
            forall|k: int| 0 <= k < i ==> #[trigger] r@[k] == argb_of(rgba@, k),
        decreases n - i,
    {
        let red: u32 = rgba[4 * i] as u32;
        let green: u32 = rgba[4 * i + 1] as u32;
        let blue: u32 = rgba[4 * i + 2] as u32;
        r.push(0xFF00_0000 + red * 0x1_0000 + green * 0x100 + blue);
        i += 1;
    }
    assert(r@ =~= Seq::new((rgba@.len() / 4) as nat, |i: int| argb_of(rgba@, i)));
    r
}

/// Whether a picture is written as vector graphics: the format or the file name
/// asks for it.
pub fn wants_svg(format: &str, out: &str) -> (r: bool)
    ensures
        r == (format@ == "svg"@ || ends_with(out@, ".svg"@)),
{
    let f: Vec<char> = chars_of(format);
    let o: Vec<char> = chars_of(out);
    same(&f, "svg") || has_suffix(&o, ".svg")
}

/// How many events are done once those of a frame are: from event `i` on, all
/// that are due at this very frame.
pub open spec fn events_done(events: Seq<KeyEvent>, i: int, frame: u32) -> int
    decreases events.len() - i,
{
    if 0 <= i < events.len() && events[i].frame == frame {
        events_done(events, i + 1, frame)
    } else {
        i
    }
}

/// How many events are done once those of a frame are.
pub fn advance_events(events: &[KeyEvent], done: usize, frame: u32) -> (r: usize)
    requires
        done <= events@.len(),
    ensures
        r == events_done(events@, done as int, frame),
        done <= r <= events@.len(),
{
    let mut i: usize = done;
    while i < events.len() && events[i].frame == frame
        invariant
            done <= i <= events@.len(),
            events_done(events@, done as int, frame) == events_done(events@, i as int, frame),
        decreases events@.len() - i,
    {
        i += 1;
    }
    i
}

// ── Sound ──

pub open spec fn le16(v: int) -> Seq<u8> {
    seq![(v % 256) as u8, (v / 256 % 256) as u8]
}

pub open spec fn le32(v: int) -> Seq<u8> {
    seq![
        (v % 256) as u8,
        (v / 256 % 256) as u8,
        (v / 65536 % 256) as u8,
        (v / 0x100_0000 % 256) as u8,
    ]
}

fn push_le16(out: &mut Vec<u8>, v: u16)
    ensures
        final(out)@ == old(out)@ + le16(v as int),
{
    let ghost before = out@;
    out.push((v % 256) as u8);
    out.push((v / 256) as u8);
    assert(out@ =~= before + le16(v as int));
}

fn push_le32(out: &mut Vec<u8>, v: u32)
    ensures
        final(out)@ == old(out)@ + le32(v as int),
{
    let ghost before = out@;
    out.push((v % 256) as u8);
    out.push((v / 256 % 256) as u8);
    out.push((v / 65536 % 256) as u8);
    out.push((v / 0x100_0000) as u8);
    assert(out@ =~= before + le32(v as int));
}

fn push_tag(out: &mut Vec<u8>, tag: [u8; 4])
    ensures
        final(out)@ == old(out)@ + tag@,
{
    let ghost before = out@;
    out.push(tag[0]);
    out.push(tag[1]);
    out.push(tag[2]);
    out.push(tag[3]);
    assert(out@ =~= before + tag@);
}

/// The samples, each by the 32 bits of a floating-point number.
pub open spec fn sample_data(samples: Seq<u32>, n: nat) -> Seq<u8>
    decreases n,
{
    if n == 0 {
        seq![]
    } else {
        sample_data(samples, (n - 1) as nat) + le32(samples[n - 1] as int)
    }
}

/// The header of a sound file with two channels of 32-bit floating-point
/// samples. Lengths are kept in 32 bits.
pub open spec fn wav_header(samples: int, sample_rate: int) -> Seq<u8> {
    seq![0x52u8, 0x49, 0x46, 0x46] + le32((36 + 4 * samples) % 0x1_0000_0000) + seq![
        0x57u8,
        0x41,
        0x56,
        0x45,
    ] + seq![0x66u8, 0x6D, 0x74, 0x20] + le32(16) + le16(3) + le16(2) + le32(sample_rate) + le32(
        8 * sample_rate,
    ) + le16(8) + le16(32) + seq![0x64u8, 0x61, 0x74, 0x61] + le32((4 * samples) % 0x1_0000_0000)
}

fn push_wav_header(out: &mut Vec<u8>, samples: usize, sample_rate: u32)
    requires
        old(out)@.len() == 0,
        8 * sample_rate <= u32::MAX,
        36 + 4 * samples <= u64::MAX,
    ensures
        final(out)@ == wav_header(samples as int, sample_rate as int),
{
    let data_len: u64 = samples as u64 * 4;
    let file_len: u64 = 36 + data_len;
    let riff: [u8; 4] = [0x52, 0x49, 0x46, 0x46];
    let wave: [u8; 4] = [0x57, 0x41, 0x56, 0x45];
    let fmt: [u8; 4] = [0x66, 0x6D, 0x74, 0x20];
    let data: [u8; 4] = [0x64, 0x61, 0x74, 0x61];
    push_tag(out, riff);
    push_le32(out, (file_len % 0x1_0000_0000) as u32);
    push_tag(out, wave);
    push_tag(out, fmt);
    push_le32(out, 16);
    push_le16(out, 3);
    push_le16(out, 2);
    push_le32(out, sample_rate);
    push_le32(out, sample_rate * 8);
    push_le16(out, 8);
    push_le16(out, 32);
    push_tag(out, data);
    push_le32(out, (data_len % 0x1_0000_0000) as u32);
    assert(riff@ =~= seq![0x52u8, 0x49, 0x46, 0x46]);
    assert(wave@ =~= seq![0x57u8, 0x41, 0x56, 0x45]);
    assert(fmt@ =~= seq![0x66u8, 0x6D, 0x74, 0x20]);
    assert(data@ =~= seq![0x64u8, 0x61, 0x74, 0x61]);
    assert(out@ =~= wav_header(samples as int, sample_rate as int));
}

/// A sound file with two channels, from the bits of its interleaved samples.
pub fn wav_bytes(samples: &[u32], sample_rate: u32) -> (out: Vec<u8>)
    requires
        8 * sample_rate <= u32::MAX,
        36 + 4 * samples@.len() <= u64::MAX,
    ensures
        out@ == wav_header(samples@.len() as int, sample_rate as int) + sample_data(
            samples@,
            samples@.len(),
        ),
{
    let mut out: Vec<u8> = Vec::new();
    push_wav_header(&mut out, samples.len(), sample_rate);
    let ghost header = out@;
    let mut i: usize = 0;
    assert(out@ =~= header + sample_data(samples@, 0));
    while i < samples.len()
        invariant
            i <= samples@.len(),
            out@ == header + sample_data(samples@, i as nat),
        decreases samples@.len() - i,
    {
        push_le32(&mut out, samples[i]);
        i += 1;
        assert(out@ =~= header + sample_data(samples@, i as nat));
    }
    out
}

/// The header of a sound file is 44 bytes long, and each sample takes four.
pub proof fn law_wav_length(samples: Seq<u32>, sample_rate: int)
    ensures
        wav_header(samples.len() as int, sample_rate).len() == 44,
        sample_data(samples, samples.len()).len() == 4 * samples.len(),
{
    lemma_sample_data(samples, samples.len());
}

proof fn lemma_sample_data(samples: Seq<u32>, n: nat)
    ensures
        sample_data(samples, n).len() == 4 * n,
    decreases n,
{
    if n > 0 {
        lemma_sample_data(samples, (n - 1) as nat);
    }
}

// ── Dumps ──

/// A color as `"#RRGGBB"`, with the quotes.
pub open spec fn quoted_color(c: u32) -> Seq<char> {
    seq!['"', '#'] + hex2(c as int / 0x1_0000 % 256) + hex2(c as int / 0x100 % 256) + hex2(
        c as int % 256,
    ) + seq!['"']
}

fn push_color(out: &mut String, c: u32)
    ensures
        final(out)@ == old(out)@ + quoted_color(c),
{
    let ghost before = out@;
    push_char(out, '"');
    push_char(out, '#');
    push_hex2(out, c / 0x1_0000 % 256);
    push_hex2(out, c / 0x100 % 256);
    push_hex2(out, c % 256);
    push_char(out, '"');
    assert(out@ =~= before + quoted_color(c));
}

/// A color as `"#RRGGBB"`, with the quotes.
pub fn argb_hex(c: u32) -> (r: String)
    ensures
        r@ == quoted_color(c),
{
    let mut r: String = String::new();
    push_color(&mut r, c);
    assert(r@ =~= quoted_color(c));
    r
}

/// The names of the bits of a flag, in order.
pub open spec fn names_of(flag: u32) -> Seq<Seq<char>> {
    let slot = if flag % 4 == 1 {
        seq!["JUNCTION"@]
    } else if flag % 4 == 2 {
        seq!["INTERIOR"@]
    } else {
        seq![]
    };
    let corner = if flag / 16 % 2 == 1 {
        seq!["CORNER"@]
    } else {
        seq![]
    };
    let tjunction = if flag / 32 % 2 == 1 {
        seq!["TJUNCTION"@]
    } else {
        seq![]
    };
    let crossing = if flag / 64 % 2 == 1 {
        seq!["CROSSING"@]
    } else {
        seq![]
    };
    let endpoint = if flag / 128 % 2 == 1 {
        seq!["ENDPOINT"@]
    } else {
        seq![]
    };
    slot + corner + tjunction + crossing + endpoint
}

/// The first `n` names, each in quotes, with commas between them.
pub open spec fn joined_names(names: Seq<Seq<char>>, n: nat) -> Seq<char>
    decreases n,
{
    if n == 0 {
        seq![]
    } else {
        let before = joined_names(names, (n - 1) as nat);
        let separator = if n > 1 {
            ", "@
        } else {
            seq![]
        };
        before + separator + seq!['"'] + names[n - 1] + seq!['"']
    }
}

pub open spec fn flag_text(flag: u32) -> Seq<char> {
    seq!['['] + joined_names(names_of(flag), names_of(flag).len()) + seq![']']
}

fn list_names(flag: u32) -> (r: Vec<&'static str>)
    ensures
        r@.len() == names_of(flag).len(),
        forall|i: int| 0 <= i < r@.len() ==> (#[trigger] r@[i])@ == names_of(flag)[i],
{
    let mut r: Vec<&'static str> = Vec::new();
    if flag % 4 == 1 {
        r.push("JUNCTION");
    } else if flag % 4 == 2 {
        r.push("INTERIOR");
    }
    if flag / 16 % 2 == 1 {
        r.push("CORNER");
    }
    if flag / 32 % 2 == 1 {
        r.push("TJUNCTION");
    }
    if flag / 64 % 2 == 1 {
        r.push("CROSSING");
    }
    if flag / 128 % 2 == 1 {
        r.push("ENDPOINT");
    }
    r
}

/// The names of the bits of a flag, as a list in brackets.
pub fn flag_names(flag: u32) -> (r: String)
    ensures
        r@ == flag_text(flag),
{
    let names: Vec<&'static str> = list_names(flag);
    let mut r: String = String::new();
    push_char(&mut r, '[');
    let mut i: usize = 0;
    assert(r@ =~= seq!['['] + joined_names(names_of(flag), 0));
    while i < names.len()
        invariant
            i <= names@.len() == names_of(flag).len(),
            forall|i: int| 0 <= i < names@.len() ==> (#[trigger] names@[i])@ == names_of(flag)[i],
            r@ == seq!['['] + joined_names(names_of(flag), i as nat),
        decreases names@.len() - i,
    {
        let ghost before = joined_names(names_of(flag), i as nat);
        if i > 0 {
            r.append(", ");
        }
        push_char(&mut r, '"');
        r.append(names[i]);
        push_char(&mut r, '"');
        i += 1;
        assert(r@ =~= seq!['['] + joined_names(names_of(flag), i as nat));
    }
    push_char(&mut r, ']');
    assert(r@ =~= flag_text(flag));
    r
}

/// The colors on the two sides of an edge, or `null` where there is none.
pub open spec fn edge_text(px: Seq<u32>, w: int, h: int, cx: int, cy: int, dir: int) -> Seq<char> {
    if dir < 0 {
        "null"@
    } else {
        let (l, r) = edge_colors(px, w, h, cx, cy, dir);
        seq!['['] + quoted_color(l) + ", "@ + quoted_color(r) + seq![']']
    }
}

/// The colors on the two sides of an edge, or `null` where there is none.
pub fn edge_colors_json(pixels: &[u32], w: usize, h: usize, icx: i32, icy: i32, dir: i32) -> (r:
    String)
    requires
        1 <= w <= i32::MAX,
        1 <= h <= i32::MAX,
        pixels@.len() >= w * h,
        icx > i32::MIN,
        icy > i32::MIN,
    ensures
        r@ == edge_text(pixels@, w as int, h as int, icx as int, icy as int, dir as int),
{
    let mut r: String = String::new();
    if dir < 0 {
        r.append("null");
        assert(r@ =~= "null"@);
        return r;
    }
    let (a, b) = get_edge_colors(pixels, w, h, icx, icy, dir);
    push_char(&mut r, '[');
    push_color(&mut r, a);
    r.append(", ");
    push_color(&mut r, b);
    push_char(&mut r, ']');
    assert(r@ =~= edge_text(pixels@, w as int, h as int, icx as int, icy as int, dir as int));
    r
}

/// Numbers of a control point that are written with a fraction: its position,
/// its original position, and its crossing.
pub struct CpNumbers {
    pub x: String,
    pub y: String,
    pub orig_x: String,
    pub orig_y: String,
    pub crossing_t: String,
}

/// Everything but the numbers with a fraction of one record of a dump.
#[derive(Clone, Copy)]
pub struct CpRecord {
    pub ci: usize,
    pub c: ControlPoint,
    pub icx: usize,
    pub icy: usize,
    pub last: bool,
}

/// One record of a dump.
pub open spec fn record_text(
    r: CpRecord,
    n: CpNumbers,
    prev_colors: Seq<char>,
    next_colors: Seq<char>,
) -> Seq<char> {
    "    {\"ci\": "@ + decimal(r.ci as int) + ", \"pos\": ["@ + n.x@ + ", "@ + n.y@
        + "], \"orig_pos\": ["@ + n.orig_x@ + ", "@ + n.orig_y@ + "], \"prev_ci\": "@
        + signed_decimal(r.c.prev as int) + ", \"next_ci\": "@ + signed_decimal(r.c.next as int)
        + ", \"prev_dir\": "@ + signed_decimal(r.c.prev_dir as int) + ", \"next_dir\": "@
        + signed_decimal(r.c.next_dir as int) + ", \"flag\": "@ + decimal(r.c.flag as int)
        + ", \"flag_names\": "@ + flag_text(r.c.flag) + ", \"crossing_t\": "@ + n.crossing_t@
        + ", \"icx\": "@ + decimal(r.icx as int) + ", \"icy\": "@ + decimal(r.icy as int)
        + ", \"prev_edge_colors\": "@ + prev_colors + ", \"next_edge_colors\": "@ + next_colors
        + "}"@ + if r.last {
        "\n"@
    } else {
        ",\n"@
    }
}

/// One record of a dump.
pub fn cp_record(r: &CpRecord, n: &CpNumbers, prev_colors: &str, next_colors: &str) -> (out: String)
    ensures
        out@ == record_text(*r, *n, prev_colors@, next_colors@),
{
    let mut s: String = String::new();
    s.append("    {\"ci\": ");
    push_decimal(&mut s, r.ci as u64);
    s.append(", \"pos\": [");
    s.append(n.x.as_str());
    s.append(", ");
    s.append(n.y.as_str());
    s.append("], \"orig_pos\": [");
    s.append(n.orig_x.as_str());
    s.append(", ");
    s.append(n.orig_y.as_str());
    s.append("], \"prev_ci\": ");
    push_signed(&mut s, r.c.prev);
    s.append(", \"next_ci\": ");
    push_signed(&mut s, r.c.next);
    s.append(", \"prev_dir\": ");
    push_signed(&mut s, r.c.prev_dir);
    s.append(", \"next_dir\": ");
    push_signed(&mut s, r.c.next_dir);
    s.append(", \"flag\": ");
    push_decimal(&mut s, r.c.flag as u64);
    s.append(", \"flag_names\": ");
    s.append(flag_names(r.c.flag).as_str());
    s.append(", \"crossing_t\": ");
    s.append(n.crossing_t.as_str());
    s.append(", \"icx\": ");
    push_decimal(&mut s, r.icx as u64);
    s.append(", \"icy\": ");
    push_decimal(&mut s, r.icy as u64);
    s.append(", \"prev_edge_colors\": ");
    s.append(prev_colors);
    s.append(", \"next_edge_colors\": ");
    s.append(next_colors);
    s.append("}");
    s.append(
        if r.last {
            "\n"
        } else {
            ",\n"
        },
    );
    assert(s@ =~= record_text(*r, *n, prev_colors@, next_colors@));
    s
}

// ── Overlays ──

/// A control point whose curve belongs to a stem: it is a chain end, or a
/// neighbor of one.
pub open spec fn is_stem(s: Seq<ControlPoint>, i: int) -> bool {
    let c = s[i];
    c.prev < 0 || c.next < 0 || is_end(s[c.prev as int]) || is_end(s[c.next as int])
}

/// Whether the curve of a control point belongs to a stem.
pub fn belongs_to_stem(cps: &[ControlPoint], i: usize) -> (r: bool)
    requires
        i < cps@.len() <= i32::MAX,
        neighbors_in_range(cps@),
    ensures
        r == is_stem(cps@, i as int),
{
    let c: ControlPoint = cps[i];
    assert(in_range(cps@[i as int], cps@.len() as int));
    c.prev < 0 || c.next < 0 || cps[c.prev as usize].flag / 128 % 2 == 1 || cps[c.next as usize].flag
        / 128 % 2 == 1
}

/// The color in which a curve is drawn: magenta for stems, blue for others.
pub fn curve_color(cps: &[ControlPoint], i: usize) -> (r: [u8; 3])
    requires
        i < cps@.len() <= i32::MAX,
        neighbors_in_range(cps@),
    ensures
        r@ == if is_stem(cps@, i as int) {
            seq![255u8, 64, 255]
        } else {
            seq![0u8, 200, 255]
        },
{
    let r: [u8; 3] = if belongs_to_stem(cps, i) {
        [255, 64, 255]
    } else {
        [0, 200, 255]
    };
    assert(r@ =~= if is_stem(cps@, i as int) {
        seq![255u8, 64, 255]
    } else {
        seq![0u8, 200, 255]
    });
    r
}

/// The mark on a control point.
pub struct Mark {
    pub color: [u8; 3],
    pub radius: i32,
}

/// The mark on a control point that is in use: chain ends are yellow and larger,
/// others green.
pub fn mark_of(c: &ControlPoint) -> (r: Option<Mark>)
    ensures
        match r {
            None => c.flag == 0,
            Some(m) => {
                &&& c.flag != 0
                &&& m.color@ == if is_end(*c) {
                    seq![255u8, 255, 0]
                } else {
                    seq![0u8, 255, 0]
                }
                &&& m.radius == if is_end(*c) {
                    8int
                } else {
                    6
                }
            },
        },
{
    if c.flag == 0 {
        return None;
    }
    if c.flag / 128 % 2 == 1 {
        let m = Mark { color: [255, 255, 0], radius: 8 };
        assert(m.color@ =~= seq![255u8, 255, 0]);
        Some(m)
    } else {
        let m = Mark { color: [0, 255, 0], radius: 6 };
        assert(m.color@ =~= seq![0u8, 255, 0]);
        Some(m)
    }
}

} // verus!
