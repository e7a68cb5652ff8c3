//! Laws of running and judging test programs.

use vstd::prelude::*;

use crate::model::GbModel;
use crate::test_runner::commands::{events_done, le16, le32, rgb_data, sample_data, wav_header};
use crate::test_runner::harness::TestResult;
use crate::test_runner::harnesses::gambatte::{
    darkest, digit_black, law_a_tile_shows_one_digit, lightest, luma, screen_verdict, tile_shows,
    DIGITS,
};
use crate::test_runner::model::{suffix_model, test_model};
use crate::test_runner::util::{events, joined, Button, KeyEvent};
use crate::text::{contains, ends_with};

verus! {

// ── Digits on the screen ──

/// The red part of a pixel of the screen, which is 160 pixels wide.
pub open spec fn red_at(fb: Seq<u32>, x: int, y: int) -> int {
    fb[160 * y + x] as int / 0x1_0000 % 0x100
}

/// Whether a digit's tile is black at a pixel; a row is a byte, leftmost bit first.
pub open spec fn black(digit: int, x: int, y: int) -> bool {
    let row = DIGITS@[digit]@[y] as int;
    if x == 0 {
        row / 128 == 1
    } else if x == 1 {
        row / 64 % 2 == 1
    } else if x == 2 {
        row / 32 % 2 == 1
    } else if x == 3 {
        row / 16 % 2 == 1
    } else if x == 4 {
        row / 8 % 2 == 1
    } else if x == 5 {
        row / 4 % 2 == 1
    } else if x == 6 {
        row / 2 % 2 == 1
    } else {
        row % 2 == 1
    }
}

/// The value of a hexadecimal digit of either case, or none.
pub open spec fn value_of(c: char, d: int) -> bool {
    let v = c as int;
    ||| 0 <= d <= 9 && v == 0x30 + d
    ||| 10 <= d <= 15 && v == 0x41 + (d - 10)
    ||| 10 <= d <= 15 && v == 0x61 + (d - 10)
}

/// A digit painted in a dark and a light tone in the tile of a given column.
pub open spec fn painted(fb: Seq<u32>, tile: int, digit: int, dark: int, light: int) -> bool {
    forall|x: int, y: int|
        0 <= x < 8 && 0 <= y < 8 ==> #[trigger] red_at(fb, 8 * tile + x, y) == if black(digit, x, y) {
            dark
        } else {
            light
        }
}

proof fn lemma_luma(fb: Seq<u32>, tile: int, digit: int, dark: int, light: int, i: int)
    requires
        painted(fb, tile, digit, dark, light),
        0 <= digit < 16,
        0 <= i < 64,
    ensures
        luma(fb, tile, i) == if black(digit, i % 8, i / 8) {
            dark
        } else {
            light
        },
        digit_black(digit, i % 8, i / 8) == black(digit, i % 8, i / 8),
{
    assert(red_at(fb, 8 * tile + i % 8, i / 8) == luma(fb, tile, i));
}

proof fn lemma_tones(fb: Seq<u32>, tile: int, digit: int, dark: int, light: int, n: nat)
    requires
        painted(fb, tile, digit, dark, light),
        0 <= digit < 16,
        0 <= dark < light <= 255,
        n <= 64,
    ensures
        dark <= darkest(fb, tile, n) <= 255,
        0 <= lightest(fb, tile, n) <= light,
        forall|i: int| 0 <= i < n ==> darkest(fb, tile, n) <= #[trigger] luma(fb, tile, i),
        forall|i: int| 0 <= i < n ==> lightest(fb, tile, n) >= #[trigger] luma(fb, tile, i),
    decreases n,
{
    if n > 0 {
        lemma_tones(fb, tile, digit, dark, light, (n - 1) as nat);
        lemma_luma(fb, tile, digit, dark, light, n - 1);
    }
}

/// Every digit has a black pixel in its last row but two, and none in its first.
proof fn lemma_has_both(digit: int) -> (x: int)
    requires
        0 <= digit < 16,
    ensures
        0 <= x < 8,
        black(digit, x, 4),
        !black(digit, 0, 0),
{
    let row = DIGITS@[digit]@[4] as int;
    assert(row == 0x41 || row == 0x08 || row == 0x7F || row == 0x3F || row == 0x7E || row == 0x04
        || row == 0x3E || row == 0x40);
    if row == 0x41 || row == 0x3F {
        7
    } else if row == 0x08 || row == 0x3E {
        4
    } else if row == 0x04 {
        5
    } else {
        1
    }
}

proof fn lemma_painted_shows(fb: Seq<u32>, tile: int, digit: int, dark: int, light: int)
    requires
        painted(fb, tile, digit, dark, light),
        0 <= digit < 16,
        0 <= dark < light <= 255,
    ensures
        tile_shows(fb, tile, digit),
{
    lemma_tones(fb, tile, digit, dark, light, 64);
    let x = lemma_has_both(digit);
    let i = 32 + x;
    assert(i % 8 == x && i / 8 == 4);
    lemma_luma(fb, tile, digit, dark, light, i);
    lemma_luma(fb, tile, digit, dark, light, 0);
    assert(luma(fb, tile, i) == dark);
    assert(luma(fb, tile, 0) == light);
    let d = darkest(fb, tile, 64);
    let l = lightest(fb, tile, 64);
    assert(d == dark && l == light);
    assert forall|k: int| 0 <= k < 64 implies digit_black(digit, k % 8, k / 8) == (#[trigger] luma(
        fb,
        tile,
        k,
    ) <= (d + l) / 2) by {
        lemma_luma(fb, tile, digit, dark, light, k);
    }
}

/// A screen on which the expected digits are painted from the top left on, in any
/// dark and light tone, passes from any of them on.
pub proof fn law_painted_digits_pass(
    fb: Seq<u32>,
    hex: Seq<char>,
    digits: Seq<int>,
    dark: int,
    light: int,
    i: int,
)
    requires
        0 <= dark < light <= 255,
        digits.len() == hex.len(),
        0 <= i <= hex.len(),
        forall|k: int|
            0 <= k < hex.len() ==> value_of(#[trigger] hex[k], digits[k]) && painted(
                fb,
                k,
                digits[k],
                dark,
                light,
            ),
    ensures
        screen_verdict(fb, hex, i) == TestResult::Pass,
    decreases hex.len() - i,
{
    if i < hex.len() {
        assert(value_of(hex[i], digits[i]));
        lemma_painted_shows(fb, i, digits[i], dark, light);
        law_painted_digits_pass(fb, hex, digits, dark, light, i + 1);
    }
}

/// A screen that shows another digit than the expected one fails there.
pub proof fn law_wrong_digit_fails(
    fb: Seq<u32>,
    hex: Seq<char>,
    i: int,
    wanted: int,
    shown: int,
    dark: int,
    light: int,
)
    requires
        0 <= dark < light <= 255,
        0 <= i < hex.len(),
        value_of(hex[i], wanted),
        0 <= shown < 16,
        shown != wanted,
        painted(fb, i, shown, dark, light),
    ensures
        screen_verdict(fb, hex, i) == TestResult::Fail,
{
    lemma_painted_shows(fb, i, shown, dark, light);
    if tile_shows(fb, i, wanted) {
        law_a_tile_shows_one_digit(fb, i, wanted, shown);
    }
}

// ── Models ──

/// The endings of names and the models that they ask for.
pub open spec fn ending(k: int) -> (Seq<char>, GbModel) {
    if k == 0 {
        ("-dmgABCmgb"@, GbModel::Dmg)
    } else if k == 1 {
        ("-dmgABC"@, GbModel::Dmg)
    } else if k == 2 {
        ("-dmg0"@, GbModel::Dmg0)
    } else if k == 3 {
        ("-mgb"@, GbModel::Mgb)
    } else if k == 4 {
        ("-sgb2"@, GbModel::Sgb2)
    } else if k == 5 {
        ("-sgb"@, GbModel::Sgb)
    } else if k == 6 {
        ("-S"@, GbModel::Sgb)
    } else if k == 7 {
        ("-A"@, GbModel::Agb)
    } else if k == 8 {
        ("-cgb0"@, GbModel::Cgb0)
    } else if k == 9 {
        ("-C"@, GbModel::Cgb)
    } else if k == 10 {
        ("-cgb"@, GbModel::Cgb)
    } else if k == 11 {
        ("-cgbABCDE"@, GbModel::Cgb)
    } else if k == 12 {
        ("-GS"@, GbModel::Dmg)
    } else {
        ("-G"@, GbModel::Dmg)
    }
}

proof fn lemma_ending(base: Seq<char>, t: Seq<char>)
    ensures
        ends_with(base + t, t),
{
    let s = base + t;
    assert(s.subrange(s.len() - t.len(), s.len() as int) =~= t);
}

proof fn lemma_endings_revealed()
    ensures
        "-dmgABCmgb"@ == seq!['-', 'd', 'm', 'g', 'A', 'B', 'C', 'm', 'g', 'b'],
        "-dmgABC"@ == seq!['-', 'd', 'm', 'g', 'A', 'B', 'C'],
        "-dmg0"@ == seq!['-', 'd', 'm', 'g', '0'],
        "-mgb"@ == seq!['-', 'm', 'g', 'b'],
        "-sgb2"@ == seq!['-', 's', 'g', 'b', '2'],
        "-sgb"@ == seq!['-', 's', 'g', 'b'],
        "-S"@ == seq!['-', 'S'],
        "-A"@ == seq!['-', 'A'],
        "-cgb0"@ == seq!['-', 'c', 'g', 'b', '0'],
        "-C"@ == seq!['-', 'C'],
        "-cgb"@ == seq!['-', 'c', 'g', 'b'],
        "-cgbABCDE"@ == seq!['-', 'c', 'g', 'b', 'A', 'B', 'C', 'D', 'E'],
        "-GS"@ == seq!['-', 'G', 'S'],
        "-G"@ == seq!['-', 'G'],
{
    reveal_strlit("-dmgABCmgb");
    reveal_strlit("-dmgABC");
    reveal_strlit("-dmg0");
    reveal_strlit("-mgb");
    reveal_strlit("-sgb2");
    reveal_strlit("-sgb");
    reveal_strlit("-S");
    reveal_strlit("-A");
    reveal_strlit("-cgb0");
    reveal_strlit("-C");
    reveal_strlit("-cgb");
    reveal_strlit("-cgbABCDE");
    reveal_strlit("-GS");
    reveal_strlit("-G");
    assert("-dmgABCmgb"@ =~= seq!['-', 'd', 'm', 'g', 'A', 'B', 'C', 'm', 'g', 'b']);
    assert("-dmgABC"@ =~= seq!['-', 'd', 'm', 'g', 'A', 'B', 'C']);
    assert("-dmg0"@ =~= seq!['-', 'd', 'm', 'g', '0']);
    assert("-mgb"@ =~= seq!['-', 'm', 'g', 'b']);
    assert("-sgb2"@ =~= seq!['-', 's', 'g', 'b', '2']);
    assert("-sgb"@ =~= seq!['-', 's', 'g', 'b']);
    assert("-S"@ =~= seq!['-', 'S']);
    assert("-A"@ =~= seq!['-', 'A']);
    assert("-cgb0"@ =~= seq!['-', 'c', 'g', 'b', '0']);
    assert("-C"@ =~= seq!['-', 'C']);
    assert("-cgb"@ =~= seq!['-', 'c', 'g', 'b']);
    assert("-cgbABCDE"@ =~= seq!['-', 'c', 'g', 'b', 'A', 'B', 'C', 'D', 'E']);
    assert("-GS"@ =~= seq!['-', 'G', 'S']);
    assert("-G"@ =~= seq!['-', 'G']);
}

/// The last characters of an ending, counted from its end, and how many it has.
spec fn tail_of(k: int) -> (char, char, char, char, int) {
    if k == 0 {
        ('b', 'g', 'm', 'C', 10)
    } else if k == 1 {
        ('C', 'B', 'A', 'g', 7)
    } else if k == 2 {
        ('0', 'g', 'm', 'd', 5)
    } else if k == 3 {
        ('b', 'g', 'm', '-', 4)
    } else if k == 4 {
        ('2', 'b', 'g', 's', 5)
    } else if k == 5 {
        ('b', 'g', 's', '-', 4)
    } else if k == 6 {
        ('S', '-', ' ', ' ', 2)
    } else if k == 7 {
        ('A', '-', ' ', ' ', 2)
    } else if k == 8 {
        ('0', 'b', 'g', 'c', 5)
    } else if k == 9 {
        ('C', '-', ' ', ' ', 2)
    } else if k == 10 {
        ('b', 'g', 'c', '-', 4)
    } else if k == 11 {
        ('E', 'D', 'C', 'B', 9)
    } else if k == 12 {
        ('S', 'G', '-', ' ', 3)
    } else {
        ('G', '-', ' ', ' ', 2)
    }
}

proof fn lemma_tail(k: int)
    requires
        0 <= k < 14,
    ensures
        ({
            let t = ending(k).0;
            let (c0, c1, c2, c3, n) = tail_of(k);
            &&& t.len() == n
            &&& t[n - 1] == c0
            &&& t[n - 2] == c1
            &&& n >= 3 ==> t[n - 3] == c2
            &&& n >= 4 ==> t[n - 4] == c3
        }),
{
    lemma_endings_revealed();
}

proof fn lemma_tails_differ(k: int, j: int)
    requires
        0 <= k < 14,
        0 <= j < 14,
        j != k,
    ensures
        ({
            let (a0, a1, a2, a3, n) = tail_of(k);
            let (b0, b1, b2, b3, m) = tail_of(j);
            a0 != b0 || a1 != b1 || (n >= 3 && m >= 3 && a2 != b2) || (n >= 4 && m >= 4 && a3
                != b3)
        }),
{
}

/// Two different endings never end the same name.
proof fn lemma_one_ending(base: Seq<char>, k: int, j: int)
    requires
        0 <= k < 14,
        0 <= j < 14,
        j != k,
    ensures
        !ends_with(base + ending(k).0, ending(j).0),
{
    lemma_tail(k);
    lemma_tail(j);
    lemma_tails_differ(k, j);
    let t = ending(k).0;
    let u = ending(j).0;
    lemma_same_tails(base, t, u, 1);
    lemma_same_tails(base, t, u, 2);
    if t.len() >= 3 && u.len() >= 3 {
        lemma_same_tails(base, t, u, 3);
    }
    if t.len() >= 4 && u.len() >= 4 {
        lemma_same_tails(base, t, u, 4);
    }
}

/// Two texts that end the same one agree in a character that both reach.
proof fn lemma_same_tails(base: Seq<char>, t: Seq<char>, u: Seq<char>, i: int)
    requires
        1 <= i <= t.len(),
        i <= u.len(),
    ensures
        ends_with(base + t, u) ==> t[t.len() - i] == u[u.len() - i],
{
    if ends_with(base + t, u) {
        let s = base + t;
        let at = s.len() - u.len();
        assert(s.subrange(at, at + u.len())[u.len() - i] == s[s.len() - i]);
        assert(s[s.len() - i] == t[t.len() - i]);
    }
}

/// A program whose name has one of the endings is run as the model of that ending,
/// whatever stands before it, and whatever its header says.
pub proof fn law_name_tells_model(
    path: Seq<char>,
    base: Seq<char>,
    rom: Option<Seq<u8>>,
    k: int,
)
    requires
        0 <= k < 14,
        !contains(path, "oam_bug"@),
    ensures
        test_model(path, base + ending(k).0, rom) == ending(k).1,
{
    assert forall|j: int| 0 <= j < 14 && j != k implies !ends_with(
        base + ending(k).0,
        (#[trigger] ending(j)).0,
    ) by {
        lemma_one_ending(base, k, j);
    }
    lemma_ending(base, ending(k).0);
    let s = base + ending(k).0;
    assert(ending(0).0 == "-dmgABCmgb"@ && ending(1).0 == "-dmgABC"@ && ending(2).0 == "-dmg0"@
        && ending(3).0 == "-mgb"@ && ending(4).0 == "-sgb2"@ && ending(5).0 == "-sgb"@
        && ending(6).0 == "-S"@ && ending(7).0 == "-A"@ && ending(8).0 == "-cgb0"@ && ending(9).0
        == "-C"@ && ending(10).0 == "-cgb"@ && ending(11).0 == "-cgbABCDE"@ && ending(12).0
        == "-GS"@ && ending(13).0 == "-G"@);
    assert(suffix_model(s) == Some(ending(k).1));
}

/// Without such an ending the byte at $0143 of the program decides, and without a
/// program it is the color model.
pub proof fn law_header_tells_model(path: Seq<char>, stem: Seq<char>, rom: Seq<u8>)
    requires
        !contains(path, "oam_bug"@),
        forall|k: int| 0 <= k < 14 ==> !ends_with(stem, (#[trigger] ending(k)).0),
    ensures
        test_model(path, stem, Some(rom)) == if rom.len() >= 0x144 && (rom[0x143] == 0x80
            || rom[0x143] == 0xC0) {
            GbModel::Cgb
        } else {
            GbModel::Dmg
        },
        test_model(path, stem, None) == GbModel::Cgb,
{
    assert(ending(0).0 == "-dmgABCmgb"@ && ending(1).0 == "-dmgABC"@ && ending(2).0 == "-dmg0"@
        && ending(3).0 == "-mgb"@ && ending(4).0 == "-sgb2"@ && ending(5).0 == "-sgb"@
        && ending(6).0 == "-S"@ && ending(7).0 == "-A"@ && ending(8).0 == "-cgb0"@ && ending(9).0
        == "-C"@ && ending(10).0 == "-cgb"@ && ending(11).0 == "-cgbABCDE"@ && ending(12).0
        == "-GS"@ && ending(13).0 == "-G"@);
}

// ── Keys ──

/// A press is held for four frames.
pub proof fn law_press_is_held(frame: u32, button: Button)
    requires
        frame <= u32::MAX - 4,
    ensures
        events(seq![(frame, button)], 1) == seq![
            KeyEvent { frame, button, down: true },
            KeyEvent { frame: (frame + 4) as u32, button, down: false },
        ],
{
    reveal_with_fuel(events, 2);
    reveal_with_fuel(joined, 2);
    assert(events(seq![(frame, button)], 1) =~= seq![
        KeyEvent { frame, button, down: true },
        KeyEvent { frame: (frame + 4) as u32, button, down: false },
    ]);
}

/// At a frame all events of that frame from the next one on are done, and no other.
pub proof fn law_events_of_a_frame_are_done(list: Seq<KeyEvent>, i: int, frame: u32)
    requires
        0 <= i <= list.len(),
    ensures
        ({
            let r = events_done(list, i, frame);
            &&& i <= r <= list.len()
            &&& forall|k: int| i <= k < r ==> (#[trigger] list[k]).frame == frame
            &&& r < list.len() ==> list[r].frame != frame
        }),
    decreases list.len() - i,
{
    if i < list.len() && list[i].frame == frame {
        law_events_of_a_frame_are_done(list, i + 1, frame);
    }
}

// ── Files ──

/// A number of two or four bytes, the lowest first.
pub open spec fn number2(f: Seq<u8>, at: int) -> int {
    f[at] + 0x100 * f[at + 1]
}

pub open spec fn number4(f: Seq<u8>, at: int) -> int {
    f[at] + 0x100 * f[at + 1] + 0x1_0000 * f[at + 2] + 0x100_0000 * f[at + 3]
}

proof fn lemma_number4(v: int)
    requires
        0 <= v < 0x1_0000_0000,
    ensures
        v == v % 256 + 0x100 * (v / 256 % 256) + 0x1_0000 * (v / 65536 % 256) + 0x100_0000 * (v
            / 0x100_0000 % 256),
{
    let a = v / 256;
    let b = a / 256;
    let c = b / 256;
    assert(b == v / 65536);
    assert(c == v / 0x100_0000);
    assert(v == 256 * a + v % 256);
    assert(a == 256 * b + a % 256);
    assert(b == 256 * c + b % 256);
}

/// Bytes that spell a number.
#[verifier::opaque]
spec fn spells4(f: Seq<u8>, v: int) -> bool {
    f.len() == 4 && number4(f, 0) == v
}

#[verifier::opaque]
spec fn spells2(f: Seq<u8>, v: int) -> bool {
    f.len() == 2 && number2(f, 0) == v
}

/// The fields of a sound file: the lengths of what follows them, floating-point
/// numbers of 32 bits in two channels, and the rate in frames and in bytes.
pub proof fn law_wav_fields(samples: int, rate: int)
    requires
        0 <= samples,
        36 + 4 * samples < 0x1_0000_0000,
        0 <= rate,
        8 * rate < 0x1_0000_0000,
    ensures
        ({
            let f = wav_header(samples, rate);
            &&& f.len() == 44
            &&& number4(f, 4) == 36 + 4 * samples
            &&& number4(f, 16) == 16
            &&& number2(f, 20) == 3
            &&& number2(f, 22) == 2
            &&& number4(f, 24) == rate
            &&& number4(f, 28) == 8 * rate
            &&& number2(f, 32) == 8
            &&& number2(f, 34) == 32
            &&& number4(f, 40) == 4 * samples
        }),
{
    let riff = seq![0x52u8, 0x49, 0x46, 0x46];
    let wave = seq![0x57u8, 0x41, 0x56, 0x45];
    let fmt = seq![0x66u8, 0x6D, 0x74, 0x20];
    let data = seq![0x64u8, 0x61, 0x74, 0x61];
    let n1 = 36 + 4 * samples;
    let n2 = 4 * samples;
    assert(n1 % 0x1_0000_0000 == n1);
    assert(n2 % 0x1_0000_0000 == n2);
    lemma_le32(n1);
    lemma_le32(n2);
    lemma_le32(rate);
    lemma_le32(8 * rate);
    lemma_le32(16);
    lemma_le16(3);
    lemma_le16(2);
    lemma_le16(8);
    lemma_le16(32);
    lemma_fields(
        riff,
        le32(n1),
        wave,
        fmt,
        le32(16),
        le16(3),
        le16(2),
        le32(rate),
        le32(8 * rate),
        le16(8),
        le16(32),
        data,
        le32(n2),
        samples,
        rate,
    );
}

proof fn lemma_le32(v: int)
    requires
        0 <= v < 0x1_0000_0000,
    ensures
        spells4(le32(v), v),
{
    reveal(spells4);
    lemma_number4(v);
}

proof fn lemma_le16(v: int)
    requires
        0 <= v < 0x1_0000,
    ensures
        spells2(le16(v), v),
{
    reveal(spells2);
}

proof fn lemma_fields(
    riff: Seq<u8>,
    len1: Seq<u8>,
    wave: Seq<u8>,
    fmt: Seq<u8>,
    size: Seq<u8>,
    kind: Seq<u8>,
    channels: Seq<u8>,
    rate: Seq<u8>,
    bytes: Seq<u8>,
    frame: Seq<u8>,
    bits: Seq<u8>,
    data: Seq<u8>,
    len2: Seq<u8>,
    samples: int,
    per_second: int,
)
    requires
        riff.len() == 4 && wave.len() == 4 && fmt.len() == 4 && data.len() == 4,
        spells4(len1, 36 + 4 * samples) && spells4(size, 16) && spells4(rate, per_second),
        spells4(bytes, 8 * per_second) && spells4(len2, 4 * samples),
        spells2(kind, 3) && spells2(channels, 2) && spells2(frame, 8) && spells2(bits, 32),
    ensures
        ({
            let f = riff + len1 + wave + fmt + size + kind + channels + rate + bytes + frame + bits
                + data + len2;
            &&& f.len() == 44
            &&& number4(f, 4) == 36 + 4 * samples
            &&& number4(f, 16) == 16
            &&& number2(f, 20) == 3
            &&& number2(f, 22) == 2
            &&& number4(f, 24) == per_second
            &&& number4(f, 28) == 8 * per_second
            &&& number2(f, 32) == 8
            &&& number2(f, 34) == 32
            &&& number4(f, 40) == 4 * samples
        }),
{
    reveal(spells4);
    reveal(spells2);
}

/// Sample `k` stands as four bytes, the lowest first.
pub proof fn law_samples_stand_in_order(samples: Seq<u32>, n: nat, k: int)
    requires
        n <= samples.len(),
        0 <= k < n,
    ensures
        sample_data(samples, n).len() == 4 * n,
        number4(sample_data(samples, n), 4 * k) == samples[k],
    decreases n,
{
    lemma_number4(samples[n - 1] as int);
    if n == 1 {
        assert(sample_data(samples, 0).len() == 0);
    } else {
        law_samples_stand_in_order(samples, (n - 1) as nat, 0);
        if k < n - 1 {
            law_samples_stand_in_order(samples, (n - 1) as nat, k);
        }
    }
}

/// Pixel `k` of a picture stands as its red, green and blue byte.
pub proof fn law_pixels_stand_in_order(px: Seq<u32>, n: nat, k: int)
    requires
        n <= px.len(),
        0 <= k < n,
    ensures
        rgb_data(px, n).len() == 3 * n,
        rgb_data(px, n)[3 * k] == px[k] as int / 0x1_0000 % 0x100,
        rgb_data(px, n)[3 * k + 1] == px[k] as int / 0x100 % 0x100,
        rgb_data(px, n)[3 * k + 2] == px[k] as int % 0x100,
    decreases n,
{
    if n == 1 {
        assert(rgb_data(px, 0).len() == 0);
    } else {
        law_pixels_stand_in_order(px, (n - 1) as nat, 0);
        if k < n - 1 {
            law_pixels_stand_in_order(px, (n - 1) as nat, k);
        }
    }
}

} // verus!
