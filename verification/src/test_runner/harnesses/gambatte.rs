//! Verdict on programs that show hexadecimal digits: what their name says they
//! show, and how a digit is read off the screen.

use vstd::prelude::*;

use crate::model::GbModel;
use crate::test_runner::harness::TestResult;
use crate::text::{chars_of, contains, find, first_at, last_at, part, rfind};

verus! {

/// Frames after which the screen is read.
pub const FRAMES: u32 = 15;

// ── Digits on the screen ──

/// The tiles of the digits, 8 rows of 8 pixels; the highest bit is leftmost.
pub const DIGITS: [[u8; 8]; 16] = [
    [0x00, 0x7F, 0x41, 0x41, 0x41, 0x41, 0x41, 0x7F],
    [0x00, 0x08, 0x08, 0x08, 0x08, 0x08, 0x08, 0x08],
    [0x00, 0x7F, 0x01, 0x01, 0x7F, 0x40, 0x40, 0x7F],
    [0x00, 0x7F, 0x01, 0x01, 0x3F, 0x01, 0x01, 0x7F],
    [0x00, 0x41, 0x41, 0x41, 0x7F, 0x01, 0x01, 0x01],
    [0x00, 0x7F, 0x40, 0x40, 0x7E, 0x01, 0x01, 0x7E],
    [0x00, 0x7F, 0x40, 0x40, 0x7F, 0x41, 0x41, 0x7F],
    [0x00, 0x7F, 0x01, 0x02, 0x04, 0x08, 0x10, 0x10],
    [0x00, 0x3E, 0x41, 0x41, 0x3E, 0x41, 0x41, 0x3E],
    [0x00, 0x7F, 0x41, 0x41, 0x7F, 0x01, 0x01, 0x7F],
    [0x00, 0x08, 0x22, 0x41, 0x7F, 0x41, 0x41, 0x41],
    [0x00, 0x7E, 0x41, 0x41, 0x7E, 0x41, 0x41, 0x7E],
    [0x00, 0x3E, 0x41, 0x40, 0x40, 0x40, 0x41, 0x3E],
    [0x00, 0x7E, 0x41, 0x41, 0x41, 0x41, 0x41, 0x7E],
    [0x00, 0x7F, 0x40, 0x40, 0x7F, 0x40, 0x40, 0x7F],
    [0x00, 0x7F, 0x40, 0x40, 0x7F, 0x40, 0x40, 0x40],
];

/// Weight of column `x` of a tile row.
pub open spec fn column_weight(x: int) -> int {
    if x == 0 {
        128
    } else if x == 1 {
        64
    } else if x == 2 {
        32
    } else if x == 3 {
        16
    } else if x == 4 {
        8
    } else if x == 5 {
        4
    } else if x == 6 {
        2
    } else {
        1
    }
}

/// The digit is black at a pixel of its tile.
pub open spec fn digit_black(digit: int, x: int, y: int) -> bool {
    DIGITS@[digit]@[y] as int / column_weight(x) % 2 == 1
}

/// Brightness of a pixel of tile `tile` in the top row of the screen: its red
/// part.
pub open spec fn luma(fb: Seq<u32>, tile: int, i: int) -> int {
    fb[i / 8 * 160 + tile * 8 + i % 8] as int / 0x1_0000 % 256
}

/// The least brightness of the first `n` pixels of a tile.
pub open spec fn darkest(fb: Seq<u32>, tile: int, n: nat) -> int
    decreases n,
{
    if n == 0 {
        255
    } else {
        let d = darkest(fb, tile, (n - 1) as nat);
        if luma(fb, tile, n - 1) < d {
            luma(fb, tile, n - 1)
        } else {
            d
        }
    }
}

/// The greatest brightness of the first `n` pixels of a tile.
pub open spec fn lightest(fb: Seq<u32>, tile: int, n: nat) -> int
    decreases n,
{
    if n == 0 {
        0
    } else {
        let l = lightest(fb, tile, (n - 1) as nat);
        if luma(fb, tile, n - 1) > l {
            luma(fb, tile, n - 1)
        } else {
            l
        }
    }
}

/// The tile shows a digit: it has two brightnesses or more, and its darker half
/// is where the digit is black.
pub open spec fn tile_shows(fb: Seq<u32>, tile: int, digit: int) -> bool {
    let d = darkest(fb, tile, 64);
    let l = lightest(fb, tile, 64);
    d != l && forall|i: int|
        0 <= i < 64 ==> digit_black(digit, i % 8, i / 8) == (#[trigger] luma(fb, tile, i) <= (d + l)
            / 2)
}

fn weight_of(x: usize) -> (r: u8)
    requires
        x < 8,
    ensures
        r == column_weight(x as int),
{
    match x {
        0 => 128,
        1 => 64,
        2 => 32,
        3 => 16,
        4 => 8,
        5 => 4,
        6 => 2,
        _ => 1,
    }
}

/// All pixels of a tile are on the screen.
pub open spec fn tile_fits(fb: Seq<u32>, tile: int) -> bool {
    0 <= tile && 7 * 160 + tile * 8 + 8 <= fb.len()
}

fn luma_at(fb: &[u32], tile: usize, i: usize) -> (r: u32)
    requires
        tile_fits(fb@, tile as int),
        i < 64,
    ensures
        r == luma(fb@, tile as int, i as int),
        r < 256,
{
    let _n: usize = fb.len();
    fb[i / 8 * 160 + tile * 8 + i % 8] / 0x1_0000 % 256
}

fn extremes(fb: &[u32], tile: usize) -> (r: (u32, u32))
    requires
        tile_fits(fb@, tile as int),
    ensures
        r.0 == darkest(fb@, tile as int, 64),
        r.1 == lightest(fb@, tile as int, 64),
        r.0 < 256,
        r.1 < 256,
{
    let mut d: u32 = 255;
    let mut l: u32 = 0;
    let mut i: usize = 0;
    while i < 64
        invariant
            i <= 64,
            tile_fits(fb@, tile as int),
            d == darkest(fb@, tile as int, i as nat),
            l == lightest(fb@, tile as int, i as nat),
            d < 256,
            l < 256,
        decreases 64 - i,
    {
        let v: u32 = luma_at(fb, tile, i);
        if v < d {
            d = v;
        }
        if v > l {
            l = v;
        }
        i += 1;
    }
    (d, l)
}

/// Whether a tile in the top row of the screen shows a digit, in any palette.
pub fn gambatte_tile_matches(fb: &[u32], tile_x: usize, digit: usize) -> (r: bool)
    requires
        tile_fits(fb@, tile_x as int),
        digit < 16,
    ensures
        r == tile_shows(fb@, tile_x as int, digit as int),
{
    let (d, l) = extremes(fb, tile_x);
    if d == l {
        return false;
    }
    let threshold: u32 = (d + l) / 2;
    let mut i: usize = 0;
    while i < 64
        invariant
            i <= 64,
            tile_fits(fb@, tile_x as int),
            digit < 16,
            d == darkest(fb@, tile_x as int, 64),
            l == lightest(fb@, tile_x as int, 64),
            threshold == (d + l) / 2,
            forall|k: int|
                0 <= k < i ==> digit_black(digit as int, k % 8, k / 8) == (#[trigger] luma(
                    fb@,
                    tile_x as int,
                    k,
                ) <= threshold),
        decreases 64 - i,
    {
        let row: [u8; 8] = DIGITS[digit];
        let expected_black: bool = row[i / 8] / weight_of(i % 8) % 2 == 1;
        let is_black: bool = luma_at(fb, tile_x, i) <= threshold;
        if expected_black != is_black {
            return false;
        }
        i += 1;
    }
    true
}

/// The tiles of two digits differ somewhere.
proof fn lemma_digits_differ(a: int, b: int) -> (i: int)
    requires
        0 <= a < 16,
        0 <= b < 16,
        a != b,
    ensures
        0 <= i < 64,
        digit_black(a, i % 8, i / 8) != digit_black(b, i % 8, i / 8),
{
    // For two different bytes some column differs.
    let y = choose|y: int| 0 <= y < 8 && #[trigger] DIGITS@[a]@[y] != DIGITS@[b]@[y];
    assert(0 <= y < 8 && DIGITS@[a]@[y] != DIGITS@[b]@[y]) by {
        lemma_rows_differ(a, b);
    }
    let p = DIGITS@[a]@[y] as int;
    let q = DIGITS@[b]@[y] as int;
    let x = if p / 128 % 2 != q / 128 % 2 {
        0int
    } else if p / 64 % 2 != q / 64 % 2 {
        1
    } else if p / 32 % 2 != q / 32 % 2 {
        2
    } else if p / 16 % 2 != q / 16 % 2 {
        3
    } else if p / 8 % 2 != q / 8 % 2 {
        4
    } else if p / 4 % 2 != q / 4 % 2 {
        5
    } else if p / 2 % 2 != q / 2 % 2 {
        6
    } else {
        7
    };
    let i = 8 * y + x;
    assert(i % 8 == x && i / 8 == y);
    i
}

proof fn lemma_rows_differ(a: int, b: int)
    requires
        0 <= a < 16,
        0 <= b < 16,
        a != b,
    ensures
        exists|y: int| 0 <= y < 8 && #[trigger] DIGITS@[a]@[y] != DIGITS@[b]@[y],
{
    let m = if a < b {
        a
    } else {
        b
    };
    let n = if a < b {
        b
    } else {
        a
    };
    assert(exists|y: int| 0 <= y < 8 && #[trigger] DIGITS@[m]@[y] != DIGITS@[n]@[y]) by {
        let p = DIGITS@[m]@;
        let q = DIGITS@[n]@;
        assert(p[1] != q[1] || p[2] != q[2] || p[3] != q[3] || p[4] != q[4] || p[5] != q[5] || p[6]
            != q[6] || p[7] != q[7]);
    }
}

/// A tile shows at most one digit.
pub proof fn law_a_tile_shows_one_digit(fb: Seq<u32>, tile: int, a: int, b: int)
    requires
        0 <= a < 16,
        0 <= b < 16,
        tile_shows(fb, tile, a),
        tile_shows(fb, tile, b),
    ensures
        a == b,
{
    if a != b {
        let i = lemma_digits_differ(a, b);
        let v = luma(fb, tile, i);
    }
}

// ── Expected digits ──

/// The value of a hexadecimal digit.
pub open spec fn digit_value(c: char) -> Option<usize> {
    if '0' <= c && c <= '9' {
        Some((c as int - 48) as usize)
    } else if 'A' <= c && c <= 'F' {
        Some((c as int - 55) as usize)
    } else if 'a' <= c && c <= 'f' {
        Some((c as int - 87) as usize)
    } else {
        None
    }
}

/// The value of a hexadecimal digit.
pub fn gambatte_digit_index(c: char) -> (r: Option<usize>)
    ensures
        r == digit_value(c),
{
    if '0' <= c && c <= '9' {
        Some((c as u32 - 48) as usize)
    } else if 'A' <= c && c <= 'F' {
        Some((c as u32 - 55) as usize)
    } else if 'a' <= c && c <= 'f' {
        Some((c as u32 - 87) as usize)
    } else {
        None
    }
}

/// One or more hexadecimal digits.
pub open spec fn is_hex_text(s: Seq<char>) -> bool {
    s.len() > 0 && forall|i: int| 0 <= i < s.len() ==> digit_value(#[trigger] s[i]) is Some
}

fn is_hex(s: &[char]) -> (r: bool)
    ensures
        r == is_hex_text(s@),
{
    if s.len() == 0 {
        return false;
    }
    let mut i: usize = 0;
    while i < s.len()
        invariant
            i <= s@.len(),
            forall|k: int| 0 <= k < i ==> digit_value(#[trigger] s@[k]) is Some,
        decreases s@.len() - i,
    {
        if gambatte_digit_index(s[i]).is_none() {
            assert(digit_value(s@[i as int]) is None);
            return false;
        }
        i += 1;
    }
    true
}

pub open spec fn upper(c: char) -> char {
    if 'a' <= c && c <= 'f' {
        (c as int - 32) as char
    } else {
        c
    }
}

pub open spec fn upper_text(s: Seq<char>) -> Seq<char> {
    s.map_values(|c: char| upper(c))
}

fn to_upper(s: &[char]) -> (r: Vec<char>)
    ensures
        r@ == upper_text(s@),
{
    let mut r: Vec<char> = Vec::new();
    let mut i: usize = 0;
    while i < s.len()
        invariant
            i <= s@.len(),
            r@ == upper_text(s@.take(i as int)),
        decreases s@.len() - i,
    {
        let c: char = s[i];
        r.push(
            if 'a' <= c && c <= 'f' {
                (c as u8 - 32) as char
            } else {
                c
            },
        );
        i += 1;
        assert(r@ =~= upper_text(s@.take(i as int)));
    }
    assert(s@.take(s@.len() as int) =~= s@);
    r
}

/// The text before the first underscore, or all of it.
pub open spec fn until_underscore(s: Seq<char>) -> Seq<char>
    decreases s.len(),
{
    if s.len() == 0 || s[0] == '_' {
        seq![]
    } else {
        seq![s[0]] + until_underscore(s.drop_first())
    }
}

fn cut_at_underscore(s: &[char]) -> (r: Vec<char>)
    ensures
        r@ == until_underscore(s@),
{
    let mut r: Vec<char> = Vec::new();
    let mut i: usize = 0;
    assert(s@.skip(0) =~= s@);
    assert(r@ + until_underscore(s@) =~= until_underscore(s@));
    while i < s.len() && s[i] != '_'
        invariant
            i <= s@.len(),
            r@ + until_underscore(s@.skip(i as int)) == until_underscore(s@),
        decreases s@.len() - i,
    {
        let ghost rest = s@.skip(i as int);
        assert(rest.drop_first() =~= s@.skip(i + 1));
        let ghost before = r@;
        r.push(s[i]);
        assert(r@ + until_underscore(s@.skip(i + 1)) =~= before + until_underscore(rest));
        i += 1;
    }
    assert(until_underscore(s@.skip(i as int)) =~= Seq::<char>::empty());
    assert(r@ =~= until_underscore(s@));
    r
}

/// What a program's name says it shows, in upper case, on the first model and
/// on the color model.
pub struct GambatteExpected {
    pub dmg_hex: Option<Vec<char>>,
    pub cgb_hex: Option<Vec<char>>,
}

/// The digits that start a text, in upper case, if there are any.
pub open spec fn hex_text(s: Seq<char>) -> Option<Seq<char>> {
    if is_hex_text(s) {
        Some(upper_text(s))
    } else {
        None
    }
}

/// What the name says, for the first model and the color model. The name may
/// speak of both models at once, of each on its own, of one only, or of none,
/// in which case the color model is meant.
pub open spec fn name_says(
    stem: Seq<char>,
    dmg: Option<Seq<char>>,
    cgb: Option<Seq<char>>,
) -> bool {
    if contains(stem, "dmg08_cgb04c_out"@) {
        exists|i: int| #[trigger]
            first_at(stem, "dmg08_cgb04c_out"@, i) && {
                let hex = hex_text(stem.skip(i + 16));
                hex is Some && dmg == hex && cgb == hex
            }
    } else if contains(stem, "dmg08_out"@) {
        exists|i: int| #[trigger]
            first_at(stem, "dmg08_out"@, i) && {
                let hex = hex_text(until_underscore(stem.skip(i + 9)));
                hex is Some && dmg == hex
            } && if contains(stem, "cgb04c_out"@) {
                exists|j: int| #[trigger]
                    first_at(stem, "cgb04c_out"@, j) && cgb == hex_text(
                        until_underscore(stem.skip(j + 10)),
                    )
            } else {
                cgb is None
            }
    } else if contains(stem, "cgb04c_out"@) {
        exists|j: int| #[trigger]
            first_at(stem, "cgb04c_out"@, j) && {
                let hex = hex_text(until_underscore(stem.skip(j + 10)));
                hex is Some && dmg is None && cgb == hex
            }
    } else if contains(stem, "_out"@) {
        exists|j: int| #[trigger]
            last_at(stem, "_out"@, j) && {
                let hex = hex_text(until_underscore(stem.skip(j + 4)));
                hex is Some && dmg is None && cgb == hex
            }
    } else {
        false
    }
}

pub open spec fn view_of(h: Option<Vec<char>>) -> Option<Seq<char>> {
    match h {
        Some(v) => Some(v@),
        None => None,
    }
}

fn rest_after(stem: &[char], from: usize) -> (r: Vec<char>)
    requires
        from <= stem@.len(),
    ensures
        r@ == stem@.skip(from as int),
{
    let r: Vec<char> = part(stem, from, stem.len());
    assert(r@ =~= stem@.skip(from as int));
    r
}

fn hex_or_none(s: &[char]) -> (r: Option<Vec<char>>)
    ensures
        view_of(r) == hex_text(s@),
{
    if is_hex(s) {
        Some(to_upper(s))
    } else {
        None
    }
}

fn parse_shared(stem: &[char], i: usize) -> (r: Option<GambatteExpected>)
    requires
        first_at(stem@, "dmg08_cgb04c_out"@, i as int),
    ensures
        match r {
            Some(e) => name_says(stem@, view_of(e.dmg_hex), view_of(e.cgb_hex)),
            None => forall|d, c| !name_says(stem@, d, c),
        },
{
    proof {
        reveal_strlit("dmg08_cgb04c_out");
        assert(contains(stem@, "dmg08_cgb04c_out"@));
        assert forall|k: int| #[trigger] first_at(stem@, "dmg08_cgb04c_out"@, k) implies k == i by {
            lemma_first_is_unique(stem@, "dmg08_cgb04c_out"@, i as int, k);
        }
    }
    let _n: usize = stem.len();
    let hex: Vec<char> = rest_after(stem, i + 16);
    match (hex_or_none(&hex), hex_or_none(&hex)) {
        (Some(a), Some(b)) => Some(GambatteExpected { dmg_hex: Some(a), cgb_hex: Some(b) }),
        _ => None,
    }
}

proof fn lemma_first_is_unique(text: Seq<char>, pattern: Seq<char>, i: int, j: int)
    requires
        first_at(text, pattern, i),
        first_at(text, pattern, j),
    ensures
        i == j,
{
    if i < j {
        assert(!crate::text::stands_at(text, pattern, i));
    }
    if j < i {
        assert(!crate::text::stands_at(text, pattern, j));
    }
}

proof fn lemma_last_is_unique(text: Seq<char>, pattern: Seq<char>, i: int, j: int)
    requires
        last_at(text, pattern, i),
        last_at(text, pattern, j),
    ensures
        i == j,
{
    if i < j {
        assert(!crate::text::stands_at(text, pattern, j));
    }
    if j < i {
        assert(!crate::text::stands_at(text, pattern, i));
    }
}

/// The color model's digits, where the name has a part of its own for them.
fn parse_color(stem: &[char]) -> (r: Option<Option<Vec<char>>>)
    ensures
        match r {
            Some(h) => contains(stem@, "cgb04c_out"@) && (forall|j: int| #[trigger]
                first_at(stem@, "cgb04c_out"@, j) ==> view_of(h) == hex_text(
                    until_underscore(stem@.skip(j + 10)),
                )) && (exists|j: int| first_at(stem@, "cgb04c_out"@, j)),
            None => !contains(stem@, "cgb04c_out"@),
        },
{
    let pattern: Vec<char> = chars_of("cgb04c_out");
    match find(stem, &pattern) {
        Some(j) => {
            proof {
                reveal_strlit("cgb04c_out");
                assert forall|k: int| #[trigger] first_at(stem@, "cgb04c_out"@, k) implies k == j by {
                    lemma_first_is_unique(stem@, "cgb04c_out"@, j as int, k);
                }
            }
            let _n: usize = stem.len();
            let rest: Vec<char> = rest_after(stem, j + 10);
            let hex: Vec<char> = cut_at_underscore(&rest);
            Some(hex_or_none(&hex))
        },
        None => None,
    }
}

fn parse_separate(stem: &[char], i: usize) -> (r: Option<GambatteExpected>)
    requires
        !contains(stem@, "dmg08_cgb04c_out"@),
        first_at(stem@, "dmg08_out"@, i as int),
    ensures
        match r {
            Some(e) => name_says(stem@, view_of(e.dmg_hex), view_of(e.cgb_hex)),
            None => forall|d, c| !name_says(stem@, d, c),
        },
{
    proof {
        reveal_strlit("dmg08_out");
        assert(contains(stem@, "dmg08_out"@));
        assert forall|k: int| #[trigger] first_at(stem@, "dmg08_out"@, k) implies k == i by {
            lemma_first_is_unique(stem@, "dmg08_out"@, i as int, k);
        }
    }
    let _n: usize = stem.len();
    let rest: Vec<char> = rest_after(stem, i + 9);
    let hex: Vec<char> = cut_at_underscore(&rest);
    match hex_or_none(&hex) {
        Some(d) => match parse_color(stem) {
            Some(c) => Some(GambatteExpected { dmg_hex: Some(d), cgb_hex: c }),
            None => Some(GambatteExpected { dmg_hex: Some(d), cgb_hex: None }),
        },
        None => None,
    }
}

fn parse_plain(stem: &[char]) -> (r: Option<GambatteExpected>)
    requires
        !contains(stem@, "dmg08_cgb04c_out"@),
        !contains(stem@, "dmg08_out"@),
        !contains(stem@, "cgb04c_out"@),
    ensures
        match r {
            Some(e) => name_says(stem@, view_of(e.dmg_hex), view_of(e.cgb_hex)),
            None => forall|d, c| !name_says(stem@, d, c),
        },
{
    let pattern: Vec<char> = chars_of("_out");
    match rfind(stem, &pattern) {
        Some(j) => {
            proof {
                reveal_strlit("_out");
                assert(contains(stem@, "_out"@));
                assert forall|k: int| #[trigger] last_at(stem@, "_out"@, k) implies k == j by {
                    lemma_last_is_unique(stem@, "_out"@, j as int, k);
                }
            }
            let _n: usize = stem.len();
            let rest: Vec<char> = rest_after(stem, j + 4);
            let hex: Vec<char> = cut_at_underscore(&rest);
            match hex_or_none(&hex) {
                Some(c) => Some(GambatteExpected { dmg_hex: None, cgb_hex: Some(c) }),
                None => None,
            }
        },
        None => None,
    }
}

/// What a program's name says it shows.
pub fn parse_gambatte_test(stem: &str) -> (r: Option<GambatteExpected>)
    ensures
        match r {
            Some(e) => name_says(stem@, view_of(e.dmg_hex), view_of(e.cgb_hex)),
            None => forall|d, c| !name_says(stem@, d, c),
        },
{
    let s: Vec<char> = chars_of(stem);
    let shared: Vec<char> = chars_of("dmg08_cgb04c_out");
    if let Some(i) = find(&s, &shared) {
        return parse_shared(&s, i);
    }
    let dmg: Vec<char> = chars_of("dmg08_out");
    if let Some(i) = find(&s, &dmg) {
        return parse_separate(&s, i);
    }
    match parse_color(&s) {
        Some(Some(c)) => Some(GambatteExpected { dmg_hex: None, cgb_hex: Some(c) }),
        Some(None) => None,
        None => parse_plain(&s),
    }
}

// ── Runs ──

/// The runs of a program: the models it is run as, each with the digits it is
/// to show.
pub open spec fn runs_of(
    dmg: Option<Seq<char>>,
    cgb: Option<Seq<char>>,
    force: Option<GbModel>,
) -> Seq<(GbModel, Seq<char>)> {
    match force {
        Some(m) => {
            let hex = if m == GbModel::Dmg || m == GbModel::Dmg0 || m == GbModel::Mgb {
                dmg
            } else {
                cgb
            };
            match hex {
                Some(h) => seq![(m, h)],
                None => seq![],
            }
        },
        None => {
            let first = match dmg {
                Some(h) => seq![(GbModel::Dmg, h)],
                None => seq![],
            };
            match cgb {
                Some(h) => first.push((GbModel::Cgb, h)),
                None => first,
            }
        },
    }
}

/// One run of a program.
pub struct Run {
    pub model: GbModel,
    pub hex: Vec<char>,
}

pub open spec fn is_run(r: Run, want: (GbModel, Seq<char>)) -> bool {
    r.model == want.0 && r.hex@ == want.1
}

/// The runs of a program. Without any it is skipped.
pub fn plan_runs(expected: GambatteExpected, force: Option<GbModel>) -> (r: Vec<Run>)
    ensures
        ({
            let want = runs_of(view_of(expected.dmg_hex), view_of(expected.cgb_hex), force);
            &&& r@.len() == want.len()
            &&& forall|i: int| 0 <= i < r@.len() ==> is_run(#[trigger] r@[i], want[i])
        }),
{
    let mut r: Vec<Run> = Vec::new();
    match force {
        Some(m) => {
            let hex: Option<Vec<char>> = match m {
                GbModel::Dmg | GbModel::Dmg0 | GbModel::Mgb => expected.dmg_hex,
                _ => expected.cgb_hex,
            };
            if let Some(h) = hex {
                r.push(Run { model: m, hex: h });
            }
        },
        None => {
            if let Some(h) = expected.dmg_hex {
                r.push(Run { model: GbModel::Dmg, hex: h });
            }
            if let Some(h) = expected.cgb_hex {
                r.push(Run { model: GbModel::Cgb, hex: h });
            }
        },
    }
    r
}

/// The verdict on the digits from position `i` on: the first that is no digit,
/// or that the screen does not show, decides.
pub open spec fn screen_verdict(fb: Seq<u32>, hex: Seq<char>, i: int) -> TestResult
    decreases hex.len() - i,
{
    if i >= hex.len() {
        TestResult::Pass
    } else {
        match digit_value(hex[i]) {
            None => TestResult::Error,
            Some(d) => if tile_shows(fb, i, d as int) {
                screen_verdict(fb, hex, i + 1)
            } else {
                TestResult::Fail
            },
        }
    }
}

/// The verdict on a screen that is to show digits from the top left on.
pub fn check_screen(fb: &[u32], hex: &[char]) -> (r: TestResult)
    requires
        7 * 160 + 8 * hex@.len() <= fb@.len(),
    ensures
        r == screen_verdict(fb@, hex@, 0),
{
    let mut i: usize = 0;
    while i < hex.len()
        invariant
            i <= hex@.len(),
            7 * 160 + 8 * hex@.len() <= fb@.len(),
            screen_verdict(fb@, hex@, i as int) == screen_verdict(fb@, hex@, 0),
        decreases hex@.len() - i,
    {
        match gambatte_digit_index(hex[i]) {
            None => {
                return TestResult::Error;
            },
            Some(d) => {
                if !gambatte_tile_matches(fb, i, d) {
                    return TestResult::Fail;
                }
            },
        }
        i += 1;
    }
    TestResult::Pass
}

/// The digit that a tile shows, for a report.
pub fn read_digit(fb: &[u32], tile: usize) -> (r: Option<usize>)
    requires
        tile_fits(fb@, tile as int),
    ensures
        match r {
            Some(d) => d < 16 && tile_shows(fb@, tile as int, d as int),
            None => forall|d: int| 0 <= d < 16 ==> !#[trigger] tile_shows(fb@, tile as int, d),
        },
{
    let mut d: usize = 0;
    while d < 16
        invariant
            d <= 16,
            tile_fits(fb@, tile as int),
            forall|k: int| 0 <= k < d ==> !#[trigger] tile_shows(fb@, tile as int, k),
        decreases 16 - d,
    {
        if gambatte_tile_matches(fb, tile, d) {
            return Some(d);
        }
        d += 1;
    }
    None
}

} // verus!
