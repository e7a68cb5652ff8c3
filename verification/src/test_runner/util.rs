//! Scripted button presses, and which files are test programs.

use vstd::prelude::*;

use crate::text::{chars_of, number32, parse_u32, part, same};

verus! {

/// A button.
#[derive(Clone, Copy, PartialEq, Eq, Structural)]
pub enum Button {
    A,
    B,
    Start,
    Select,
    Up,
    Down,
    Left,
    Right,
}

/// A button goes down or up at a frame.
#[derive(Clone, Copy, PartialEq, Eq, Structural)]
pub struct KeyEvent {
    pub frame: u32,
    pub button: Button,
    pub down: bool,
}

/// Frames for which a scripted button is held.
pub const HOLD_FRAMES: u32 = 4;

/// Whether a file's extension is that of a test program.
pub fn is_rom(ext: Option<&str>) -> (r: bool)
    ensures
        r == match ext {
            Some(e) => e@ == "gb"@ || e@ == "gbc"@,
            None => false,
        },
{
    match ext {
        Some(e) => {
            let c: Vec<char> = chars_of(e);
            same(&c, "gb") || same(&c, "gbc")
        },
        None => false,
    }
}

// ── Text ──

/// The lower case of an ASCII letter; other characters stay.
pub open spec fn lower(c: char) -> char {
    if 'A' <= c && c <= 'Z' {
        (c as int + 32) as char
    } else {
        c
    }
}

/// The first position at or after `i` where a character stands, or the end.
pub open spec fn next_at(text: Seq<char>, c: char, i: int) -> int
    decreases text.len() - i,
{
    if i >= text.len() || text[i] == c {
        i
    } else {
        next_at(text, c, i + 1)
    }
}

/// White space, as Unicode counts it.
pub open spec fn is_space(c: char) -> bool {
    let v = c as int;
    ||| 9 <= v <= 13
    ||| v == 32
    ||| v == 0x85
    ||| v == 0xA0
    ||| v == 0x1680
    ||| 0x2000 <= v <= 0x200A
    ||| v == 0x2028
    ||| v == 0x2029
    ||| v == 0x202F
    ||| v == 0x205F
    ||| v == 0x3000
}

/// The text without white space at its start.
pub open spec fn trim_start(text: Seq<char>) -> Seq<char>
    decreases text.len(),
{
    if text.len() > 0 && is_space(text[0]) {
        trim_start(text.drop_first())
    } else {
        text
    }
}

/// The text without white space at its end.
pub open spec fn trim_end(text: Seq<char>) -> Seq<char>
    decreases text.len(),
{
    if text.len() > 0 && is_space(text.last()) {
        trim_end(text.drop_last())
    } else {
        text
    }
}

fn is_white(c: char) -> (r: bool)
    ensures
        r == is_space(c),
{
    let v: u32 = c as u32;
    (9 <= v && v <= 13) || v == 32 || v == 0x85 || v == 0xA0 || v == 0x1680 || (0x2000 <= v && v
        <= 0x200A) || v == 0x2028 || v == 0x2029 || v == 0x202F || v == 0x205F || v == 0x3000
}

fn trimmed(text: &[char]) -> (r: Vec<char>)
    ensures
        r@ == trim_end(trim_start(text@)),
{
    let mut from: usize = 0;
    assert(text@.subrange(0, text@.len() as int) =~= text@);
    while from < text.len() && is_white(text[from])
        invariant
            from <= text@.len(),
            trim_start(text@) == trim_start(text@.subrange(from as int, text@.len() as int)),
        decreases text@.len() - from,
    {
        let ghost rest = text@.subrange(from as int, text@.len() as int);
        assert(rest.drop_first() =~= text@.subrange(from + 1, text@.len() as int));
        from += 1;
    }
    let ghost started = text@.subrange(from as int, text@.len() as int);
    assert(trim_start(text@) == started);
    let mut to: usize = text.len();
    while to > from && is_white(text[to - 1])
        invariant
            from <= to <= text@.len(),
            trim_end(started) == trim_end(text@.subrange(from as int, to as int)),
        decreases to,
    {
        let ghost rest = text@.subrange(from as int, to as int);
        assert(rest.drop_last() =~= text@.subrange(from as int, to - 1));
        to -= 1;
    }
    part(text, from, to)
}

fn find_next(text: &[char], c: char, from: usize) -> (r: usize)
    requires
        from <= text@.len(),
    ensures
        r == next_at(text@, c, from as int),
        from <= r <= text@.len(),
{
    let mut i: usize = from;
    while i < text.len() && text[i] != c
        invariant
            from <= i <= text@.len(),
            next_at(text@, c, from as int) == next_at(text@, c, i as int),
        decreases text@.len() - i,
    {
        i += 1;
    }
    i
}

// ── Key scripts ──

/// The button that a name stands for, in any case.
pub open spec fn named_button(name: Seq<char>) -> Option<Button> {
    let n = name.map_values(|c: char| lower(c));
    if n == "a"@ {
        Some(Button::A)
    } else if n == "b"@ {
        Some(Button::B)
    } else if n == "start"@ {
        Some(Button::Start)
    } else if n == "select"@ {
        Some(Button::Select)
    } else if n == "up"@ {
        Some(Button::Up)
    } else if n == "down"@ {
        Some(Button::Down)
    } else if n == "left"@ {
        Some(Button::Left)
    } else if n == "right"@ {
        Some(Button::Right)
    } else {
        None
    }
}

/// A press: a frame and a button with a colon between them. A frame that is no
/// number counts as 0.
pub open spec fn press_of(item: Seq<char>) -> Option<(u32, Button)> {
    let t = trim_end(trim_start(item));
    let colon = next_at(t, ':', 0);
    if colon >= t.len() || next_at(t, ':', colon + 1) < t.len() {
        None
    } else {
        match named_button(t.subrange(colon + 1, t.len() as int)) {
            Some(b) => Some(
                (
                    match number32(t.subrange(0, colon)) {
                        Some(v) => v,
                        None => 0,
                    },
                    b,
                ),
            ),
            None => None,
        }
    }
}

/// The presses of a script from position `i` on: items between commas that are
/// presses, in order.
pub open spec fn presses(text: Seq<char>, i: int) -> Seq<(u32, Button)>
    decreases text.len() - i,
    when 0 <= i <= text.len()
    via presses_end
{
    let end = next_at(text, ',', i);
    let first = match press_of(text.subrange(i, end)) {
        Some(p) => seq![p],
        None => seq![],
    };
    if end >= text.len() {
        first
    } else {
        first + presses(text, end + 1)
    }
}

#[via_fn]
proof fn presses_end(text: Seq<char>, i: int) {
    lemma_next_at(text, ',', i);
}

proof fn lemma_next_at(text: Seq<char>, c: char, i: int)
    requires
        0 <= i <= text.len(),
    ensures
        i <= next_at(text, c, i) <= text.len(),
    decreases text.len() - i,
{
    if i < text.len() && text[i] != c {
        lemma_next_at(text, c, i + 1);
    }
}

/// An event joins a list, behind all events of the same frame or earlier.
pub open spec fn joined(list: Seq<KeyEvent>, e: KeyEvent) -> Seq<KeyEvent>
    decreases list.len(),
{
    if list.len() > 0 && list.last().frame > e.frame {
        joined(list.drop_last(), e).push(list.last())
    } else {
        list.push(e)
    }
}

/// The events of the first `n` presses, in order of their frames: each button
/// goes down and, some frames later, up.
pub open spec fn events(p: Seq<(u32, Button)>, n: nat) -> Seq<KeyEvent>
    decreases n,
{
    if n == 0 {
        seq![]
    } else {
        let (frame, button) = p[n - 1];
        let down = KeyEvent { frame, button, down: true };
        let up = KeyEvent { frame: (frame + HOLD_FRAMES) as u32, button, down: false };
        joined(joined(events(p, (n - 1) as nat), down), up)
    }
}

fn button_of(name: &[char]) -> (r: Option<Button>)
    ensures
        r == named_button(name@),
{
    let mut n: Vec<char> = Vec::new();
    let mut i: usize = 0;
    while i < name.len()
        invariant
            i <= name@.len(),
            n@ == name@.take(i as int).map_values(|c: char| lower(c)),
        decreases name@.len() - i,
    {
        n.push(lower_char(name[i]));
        i += 1;
        assert(n@ =~= name@.take(i as int).map_values(|c: char| lower(c)));
    }
    assert(name@.take(name@.len() as int) =~= name@);
    if same(&n, "a") {
        Some(Button::A)
    } else if same(&n, "b") {
        Some(Button::B)
    } else if same(&n, "start") {
        Some(Button::Start)
    } else if same(&n, "select") {
        Some(Button::Select)
    } else if same(&n, "up") {
        Some(Button::Up)
    } else if same(&n, "down") {
        Some(Button::Down)
    } else if same(&n, "left") {
        Some(Button::Left)
    } else if same(&n, "right") {
        Some(Button::Right)
    } else {
        None
    }
}

fn lower_char(c: char) -> (r: char)
    ensures
        r == lower(c),
{
    if 'A' <= c && c <= 'Z' {
        (c as u8 + 32) as char
    } else {
        c
    }
}

fn parse_press(item: &[char]) -> (r: Option<(u32, Button)>)
    ensures
        r == press_of(item@),
{
    let t: Vec<char> = trimmed(item);
    let colon: usize = find_next(&t, ':', 0);
    if colon >= t.len() {
        return None;
    }
    if find_next(&t, ':', colon + 1) < t.len() {
        return None;
    }
    let name: Vec<char> = part(&t, colon + 1, t.len());
    let number: Vec<char> = part(&t, 0, colon);
    match button_of(&name) {
        Some(b) => Some(
            (
                match parse_u32(&number) {
                    Some(v) => v,
                    None => 0,
                },
                b,
            ),
        ),
        None => None,
    }
}

fn parse_presses(text: &[char]) -> (r: Vec<(u32, Button)>)
    ensures
        r@ == presses(text@, 0),
{
    let mut r: Vec<(u32, Button)> = Vec::new();
    let mut i: usize = 0;
    assert(r@ + presses(text@, 0) =~= presses(text@, 0));
    loop
        invariant_except_break
            i <= text@.len(),
            r@ + presses(text@, i as int) == presses(text@, 0),
        ensures
            r@ == presses(text@, 0),
        decreases text@.len() - i,
    {
        let end: usize = find_next(text, ',', i);
        let item: Vec<char> = part(text, i, end);
        let ghost before = r@;
        if let Some(p) = parse_press(&item) {
            r.push(p);
        }
        if end >= text.len() {
            assert(r@ =~= before + presses(text@, i as int));
            break;
        }
        assert(r@ + presses(text@, end + 1) =~= before + presses(text@, i as int));
        i = end + 1;
    }
    r
}

fn join_event(list: &mut Vec<KeyEvent>, e: KeyEvent)
    ensures
        final(list)@ == joined(old(list)@, e),
    decreases old(list)@.len(),
{
    let n: usize = list.len();
    if n > 0 && list[n - 1].frame > e.frame {
        let last: KeyEvent = list[n - 1];
        let _gone = list.pop();
        assert(list@ =~= old(list)@.drop_last());
        join_event(list, e);
        list.push(last);
    } else {
        list.push(e);
    }
}

/// The frames of a script leave room for the release of the button.
pub open spec fn keys_wf(text: Seq<char>) -> bool {
    forall|i: int|
        0 <= i < presses(text, 0).len() ==> (#[trigger] presses(text, 0)[i]).0 + HOLD_FRAMES
            <= u32::MAX
}

/// The events of a script such as `100:a,200:start`, in order of their frames.
pub fn parse_keys(keys: &str) -> (r: Vec<KeyEvent>)
    requires
        keys_wf(keys@),
    ensures
        r@ == events(presses(keys@, 0), presses(keys@, 0).len()),
{
    let text: Vec<char> = chars_of(keys);
    let p: Vec<(u32, Button)> = parse_presses(&text);
    let mut r: Vec<KeyEvent> = Vec::new();
    let mut i: usize = 0;
    while i < p.len()
        invariant
            i <= p@.len(),
            p@ == presses(keys@, 0),
            keys_wf(keys@),
            r@ == events(p@, i as nat),
        decreases p@.len() - i,
    {
        let (frame, button) = p[i];
        assert(p@[i as int].0 + HOLD_FRAMES <= u32::MAX);
        join_event(&mut r, KeyEvent { frame, button, down: true });
        join_event(&mut r, KeyEvent { frame: frame + HOLD_FRAMES, button, down: false });
        i += 1;
    }
    r
}

/// The events of a script; none where a frame leaves no room for the release.
pub fn try_parse_keys(keys: &str) -> (r: Option<Vec<KeyEvent>>)
    ensures
        match r {
            Some(v) => keys_wf(keys@) && v@ == events(presses(keys@, 0), presses(keys@, 0).len()),
            None => !keys_wf(keys@),
        },
{
    let text: Vec<char> = chars_of(keys);
    let p: Vec<(u32, Button)> = parse_presses(&text);
    let mut i: usize = 0;
    while i < p.len()
        invariant
            i <= p@.len(),
            p@ == presses(keys@, 0),
            forall|j: int| 0 <= j < i ==> (#[trigger] p@[j]).0 + HOLD_FRAMES <= u32::MAX,
        decreases p@.len() - i,
    {
        if p[i].0 > u32::MAX - HOLD_FRAMES {
            assert(presses(keys@, 0)[i as int].0 + HOLD_FRAMES > u32::MAX);
            return None;
        }
        i += 1;
    }
    Some(parse_keys(keys))
}

pub open spec fn in_order(list: Seq<KeyEvent>) -> bool {
    forall|i: int, j: int| 0 <= i <= j < list.len() ==> list[i].frame <= list[j].frame
}

proof fn lemma_joined(list: Seq<KeyEvent>, e: KeyEvent)
    requires
        in_order(list),
    ensures
        in_order(joined(list, e)),
        joined(list, e).len() == list.len() + 1,
        joined(list, e).to_multiset() == list.to_multiset().insert(e),
        forall|i: int|
            0 <= i < joined(list, e).len() ==> (#[trigger] joined(list, e)[i]).frame <= e.frame || (
            list.len() > 0 && joined(list, e)[i].frame <= list.last().frame),
    decreases list.len(),
{
    broadcast use vstd::seq_lib::group_to_multiset_ensures;

    if list.len() > 0 && list.last().frame > e.frame {
        lemma_joined(list.drop_last(), e);
        let inner = joined(list.drop_last(), e);
        assert(list =~= list.drop_last().push(list.last()));
        assert forall|i: int| 0 <= i < inner.len() implies (#[trigger] inner[i]).frame
            <= list.last().frame by {}
        assert(inner.push(list.last()).to_multiset() =~= list.to_multiset().insert(e));
    }
}

/// The events of a script come in order of their frames, two for each press.
pub proof fn law_events_are_in_order(p: Seq<(u32, Button)>, n: nat)
    requires
        n <= p.len(),
    ensures
        in_order(events(p, n)),
        events(p, n).len() == 2 * n,
    decreases n,
{
    if n > 0 {
        law_events_are_in_order(p, (n - 1) as nat);
        let (frame, button) = p[n - 1];
        let down = KeyEvent { frame, button, down: true };
        let up = KeyEvent { frame: (frame + HOLD_FRAMES) as u32, button, down: false };
        let before = events(p, (n - 1) as nat);
        lemma_joined(before, down);
        lemma_joined(joined(before, down), up);
    }
}

/// Events of one frame come in the order in which they were written: an event
/// that joins stands behind all others of its frame.
pub proof fn law_events_keep_their_order(list: Seq<KeyEvent>, e: KeyEvent)
    requires
        in_order(list),
    ensures
        exists|k: int|
            0 <= k <= list.len() && #[trigger] joined(list, e) == list.take(k) + seq![e] + list.skip(
                k,
            ) && (forall|i: int| 0 <= i < k ==> list[i].frame <= e.frame) && (forall|i: int|
                k <= i < list.len() ==> list[i].frame > e.frame),
    decreases list.len(),
{
    if list.len() > 0 && list.last().frame > e.frame {
        let init = list.drop_last();
        law_events_keep_their_order(init, e);
        let k = choose|k: int|
            0 <= k <= init.len() && #[trigger] joined(init, e) == init.take(k) + seq![e] + init.skip(
                k,
            ) && (forall|i: int| 0 <= i < k ==> init[i].frame <= e.frame) && (forall|i: int|
                k <= i < init.len() ==> init[i].frame > e.frame);
        assert(list.take(k) =~= init.take(k));
        assert(joined(list, e) =~= list.take(k) + seq![e] + list.skip(k));
        assert forall|i: int| k <= i < list.len() implies list[i].frame > e.frame by {
            if i < init.len() {
                assert(init[i] == list[i]);
            }
        }
        assert forall|i: int| 0 <= i < k implies list[i].frame <= e.frame by {
            assert(init[i] == list[i]);
        }
    } else {
        let k = list.len() as int;
        assert(joined(list, e) =~= list.take(k) + seq![e] + list.skip(k));
    }
}

} // verus!
