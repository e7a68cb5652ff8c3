//! Text as sequences of characters: searching, numbers, and names.

use vstd::prelude::*;

verus! {

/// Append a character: `String::push` of the standard library. The character
/// stands at the end of the text, and the rest stays.
#[verifier::external_body]
pub(crate) fn push_char(out: &mut String, c: char)
    ensures
        final(out)@ == old(out)@.push(c),
{
    out.push(c);
}

/// The characters of a text.
pub fn chars_of(s: &str) -> (r: Vec<char>)
    ensures
        r@ == s@,
{
    broadcast use vstd::string::axiom_spec_iter;

    let mut r: Vec<char> = Vec::new();
    for c in it: s.chars()
        invariant
            it.seq() == s@,
            r@ == it.seq().take(it.index() as int),
    {
        r.push(c);
        assert(it.seq().take(it.index() + 1) =~= it.seq().take(it.index() as int).push(c));
    }
    assert(s@.take(s@.len() as int) =~= s@);
    r
}

// ── Searching ──

/// The pattern stands at position `i` of the text.
pub open spec fn stands_at(text: Seq<char>, pattern: Seq<char>, i: int) -> bool {
    0 <= i && i + pattern.len() <= text.len() && text.subrange(i, i + pattern.len()) == pattern
}

pub open spec fn ends_with(text: Seq<char>, pattern: Seq<char>) -> bool {
    stands_at(text, pattern, text.len() - pattern.len())
}

pub open spec fn contains(text: Seq<char>, pattern: Seq<char>) -> bool {
    exists|i: int| stands_at(text, pattern, i)
}

/// Position `i` is the first at which the pattern stands.
pub open spec fn first_at(text: Seq<char>, pattern: Seq<char>, i: int) -> bool {
    stands_at(text, pattern, i) && forall|j: int| 0 <= j < i ==> !#[trigger] stands_at(
        text,
        pattern,
        j,
    )
}

/// Position `i` is the last at which the pattern stands.
pub open spec fn last_at(text: Seq<char>, pattern: Seq<char>, i: int) -> bool {
    stands_at(text, pattern, i) && forall|j: int| i < j ==> !#[trigger] stands_at(text, pattern, j)
}

fn is_at(text: &[char], pattern: &[char], i: usize) -> (r: bool)
    requires
        i + pattern@.len() <= text@.len(),
    ensures
        r == stands_at(text@, pattern@, i as int),
{
    let _n: usize = text.len();
    let mut k: usize = 0;
    while k < pattern.len()
        invariant
            k <= pattern@.len(),
            text@.len() <= usize::MAX,
            i + pattern@.len() <= text@.len(),
            forall|j: int| 0 <= j < k ==> text@[i + j] == #[trigger] pattern@[j],
        decreases pattern@.len() - k,
    {
        if text[i + k] != pattern[k] {
            assert(text@.subrange(i as int, i + pattern@.len())[k as int] != pattern@[k as int]);
            return false;
        }
        k += 1;
    }
    assert(text@.subrange(i as int, i + pattern@.len()) =~= pattern@);
    true
}

/// Where a pattern stands first in a text.
pub fn find(text: &[char], pattern: &[char]) -> (r: Option<usize>)
    ensures
        match r {
            Some(i) => first_at(text@, pattern@, i as int),
            None => !contains(text@, pattern@),
        },
{
    if pattern.len() > text.len() {
        return None;
    }
    let last: usize = text.len() - pattern.len();
    let mut i: usize = 0;
    loop
        invariant
            i <= last,
            last + pattern@.len() == text@.len(),
            text@.len() <= usize::MAX,
            forall|j: int| 0 <= j < i ==> !#[trigger] stands_at(text@, pattern@, j),
        decreases last - i,
    {
        if is_at(text, pattern, i) {
            return Some(i);
        }
        if i == last {
            return None;
        }
        i += 1;
    }
}

/// Where a pattern stands last in a text.
pub fn rfind(text: &[char], pattern: &[char]) -> (r: Option<usize>)
    ensures
        match r {
            Some(i) => last_at(text@, pattern@, i as int),
            None => !contains(text@, pattern@),
        },
{
    if pattern.len() > text.len() {
        return None;
    }
    let mut i: usize = text.len() - pattern.len();
    loop
        invariant
            i + pattern@.len() <= text@.len(),
            forall|j: int| i < j ==> !#[trigger] stands_at(text@, pattern@, j),
        decreases i,
    {
        if is_at(text, pattern, i) {
            return Some(i);
        }
        if i == 0 {
            return None;
        }
        i -= 1;
    }
}

/// Whether a text contains another.
pub fn has(text: &[char], pattern: &str) -> (r: bool)
    ensures
        r == contains(text@, pattern@),
{
    let p: Vec<char> = chars_of(pattern);
    match find(text, &p) {
        Some(i) => {
            assert(stands_at(text@, pattern@, i as int));
            true
        },
        None => false,
    }
}

/// Whether a text ends with another.
pub fn has_suffix(text: &[char], suffix: &str) -> (r: bool)
    ensures
        r == ends_with(text@, suffix@),
{
    let p: Vec<char> = chars_of(suffix);
    if p.len() > text.len() {
        return false;
    }
    is_at(text, &p, text.len() - p.len())
}

/// Whether two texts are the same.
pub fn same(text: &[char], other: &str) -> (r: bool)
    ensures
        r == (text@ == other@),
{
    let p: Vec<char> = chars_of(other);
    if p.len() != text.len() {
        return false;
    }
    let r: bool = is_at(text, &p, 0);
    assert(text@.subrange(0, text@.len() as int) =~= text@);
    r
}

/// A part of a text.
pub fn part(text: &[char], from: usize, to: usize) -> (r: Vec<char>)
    requires
        from <= to <= text@.len(),
    ensures
        r@ == text@.subrange(from as int, to as int),
{
    let mut r: Vec<char> = Vec::new();
    let mut i: usize = from;
    while i < to
        invariant
            from <= i <= to <= text@.len(),
            r@ == text@.subrange(from as int, i as int),
        decreases to - i,
    {
        r.push(text[i]);
        i += 1;
        assert(text@.subrange(from as int, i as int) =~= text@.subrange(
            from as int,
            i - 1,
        ).push(text@[i - 1]));
    }
    r
}

// ── Numbers ──

pub open spec fn digit(d: int) -> char {
    if d == 0 {
        '0'
    } else if d == 1 {
        '1'
    } else if d == 2 {
        '2'
    } else if d == 3 {
        '3'
    } else if d == 4 {
        '4'
    } else if d == 5 {
        '5'
    } else if d == 6 {
        '6'
    } else if d == 7 {
        '7'
    } else if d == 8 {
        '8'
    } else if d == 9 {
        '9'
    } else if d == 10 {
        'A'
    } else if d == 11 {
        'B'
    } else if d == 12 {
        'C'
    } else if d == 13 {
        'D'
    } else if d == 14 {
        'E'
    } else {
        'F'
    }
}

/// The digit of a value below 16, in upper case.
pub fn digit_char(d: u32) -> (r: char)
    requires
        d < 16,
    ensures
        r == digit(d as int),
{
    match d {
        0 => '0',
        1 => '1',
        2 => '2',
        3 => '3',
        4 => '4',
        5 => '5',
        6 => '6',
        7 => '7',
        8 => '8',
        9 => '9',
        10 => 'A',
        11 => 'B',
        12 => 'C',
        13 => 'D',
        14 => 'E',
        _ => 'F',
    }
}

/// A number in decimal digits.
pub open spec fn decimal(n: int) -> Seq<char>
    decreases n,
{
    if n < 10 {
        seq![digit(n)]
    } else {
        decimal(n / 10).push(digit(n % 10))
    }
}

/// A number in decimal digits, with zeros in front up to a width.
pub open spec fn padded_decimal(n: int, width: nat) -> Seq<char> {
    let d = decimal(n);
    Seq::new((width - d.len()) as nat, |i: int| '0') + d
}

/// Two hexadecimal digits.
pub open spec fn hex2(n: int) -> Seq<char> {
    seq![digit(n / 16), digit(n % 16)]
}

/// Append a number in decimal digits.
pub fn push_decimal(out: &mut String, n: u64)
    ensures
        final(out)@ == old(out)@ + decimal(n as int),
    decreases n,
{
    if n >= 10 {
        push_decimal(out, n / 10);
    }
    let ghost before = out@;
    push_char(out, digit_char((n % 10) as u32));
    assert(out@ =~= old(out)@ + decimal(n as int));
}

/// Append a number in decimal digits, with a sign where it is negative.
pub fn push_signed(out: &mut String, n: i32)
    ensures
        final(out)@ == old(out)@ + signed_decimal(n as int),
{
    let ghost before = out@;
    if n < 0 {
        push_char(out, '-');
        push_decimal(out, (-(n as i64)) as u64);
        assert(out@ =~= before + signed_decimal(n as int));
    } else {
        push_decimal(out, n as u64);
    }
}

/// A number in decimal digits, with a sign where it is negative.
pub open spec fn signed_decimal(n: int) -> Seq<char> {
    if n < 0 {
        seq!['-'] + decimal(-n)
    } else {
        decimal(n)
    }
}

/// Append two hexadecimal digits.
pub fn push_hex2(out: &mut String, n: u32)
    requires
        n < 256,
    ensures
        final(out)@ == old(out)@ + hex2(n as int),
{
    let ghost before = out@;
    push_char(out, digit_char(n / 16));
    push_char(out, digit_char(n % 16));
    assert(out@ =~= before + hex2(n as int));
}

fn decimal_width(n: u64) -> (r: u64)
    ensures
        r == decimal(n as int).len(),
        1 <= r <= 1 + n / 10,
    decreases n,
{
    if n < 10 {
        1
    } else {
        1 + decimal_width(n / 10)
    }
}

/// Append a number in decimal digits, with zeros in front up to a width.
pub fn push_padded(out: &mut String, n: u64, width: usize)
    ensures
        final(out)@ == old(out)@ + if decimal(n as int).len() < width {
            padded_decimal(n as int, width as nat)
        } else {
            decimal(n as int)
        },
{
    let ghost before = out@;
    let digits: u64 = decimal_width(n);
    let mut k: u64 = digits;
    while k < width as u64
        invariant
            digits <= k,
            k <= width || k == digits,
            out@ == before + Seq::new((k - digits) as nat, |i: int| '0'),
        decreases width - k,
    {
        push_char(out, '0');
        k += 1;
        assert(out@ =~= before + Seq::new((k - digits) as nat, |i: int| '0'));
    }
    let ghost zeros = out@;
    push_decimal(out, n);
    assert(out@ =~= before + if decimal(n as int).len() < width {
        padded_decimal(n as int, width as nat)
    } else {
        decimal(n as int)
    });
}

/// The value of a decimal digit.
pub open spec fn decimal_value(c: char) -> Option<int> {
    if '0' <= c && c <= '9' {
        Some(c as int - '0' as int)
    } else {
        None
    }
}

/// The number that the first `n` characters stand for, if they are digits.
pub open spec fn number(text: Seq<char>, n: nat) -> Option<int>
    decreases n,
{
    if n == 0 {
        Some(0int)
    } else {
        match (number(text, (n - 1) as nat), decimal_value(text[n - 1])) {
            (Some(v), Some(d)) => Some(10 * v + d),
            _ => None,
        }
    }
}

/// A 32-bit number in decimal: digits, with a plus sign in front or without.
pub open spec fn number32(text: Seq<char>) -> Option<u32> {
    let t = if text.len() > 0 && text[0] == '+' {
        text.drop_first()
    } else {
        text
    };
    if t.len() == 0 {
        None
    } else {
        match number(t, t.len()) {
            Some(v) => if v <= u32::MAX {
                Some(v as u32)
            } else {
                None
            },
            None => None,
        }
    }
}

proof fn lemma_number_grows(text: Seq<char>, m: nat, n: nat)
    requires
        m <= n,
    ensures
        number(text, m) is None ==> number(text, n) is None,
        number(text, n) is Some ==> number(text, m) is Some && number(text, n).unwrap() >= number(
            text,
            m,
        ).unwrap() >= 0,
    decreases n,
{
    if m < n {
        lemma_number_grows(text, m, (n - 1) as nat);
    } else if m > 0 {
        lemma_number_grows(text, (m - 1) as nat, (m - 1) as nat);
    }
}

/// The number that a text stands for.
pub fn parse_u32(text: &[char]) -> (r: Option<u32>)
    ensures
        r == number32(text@),
{
    let from: usize = if text.len() > 0 && text[0] == '+' {
        1
    } else {
        0
    };
    let ghost t = if text@.len() > 0 && text@[0] == '+' {
        text@.drop_first()
    } else {
        text@
    };
    if from == text.len() {
        return None;
    }
    let mut v: u32 = 0;
    let mut i: usize = from;
    while i < text.len()
        invariant
            from <= i <= text@.len(),
            t.len() == text@.len() - from,
            t == text@.subrange(from as int, text@.len() as int),
            from <= 1,
            from < text@.len(),
            t == if text@.len() > 0 && text@[0] == '+' {
                text@.drop_first()
            } else {
                text@
            },
            number(t, (i - from) as nat) == Some(v as int),
        decreases text@.len() - i,
    {
        let c: char = text[i];
        assert(t[i - from] == c);
        proof {
            lemma_number_grows(t, (i - from + 1) as nat, t.len());
        }
        if c < '0' || c > '9' {
            return None;
        }
        let d: u32 = c as u32 - '0' as u32;
        if v > 429496729 || (v == 429496729 && d > 5) {
            assert(number(t, (i - from + 1) as nat) == Some(10 * v + d as int));
            return None;
        }
        v = 10 * v + d;
        i += 1;
    }
    Some(v)
}

} // verus!
