//! What the debugging commands find out.

use vstd::prelude::*;

use crate::model::GbModel;

verus! {

/// A strong yellow.
pub open spec fn is_yellow(pixel: u32) -> bool {
    let r = pixel as int / 0x1_0000 % 256;
    let g = pixel as int / 0x100 % 256;
    let b = pixel as int % 256;
    r > 200 && g > 150 && b < 100
}

fn yellow(pixel: u32) -> (r: bool)
    ensures
        r == is_yellow(pixel),
{
    pixel / 0x1_0000 % 256 > 200 && pixel / 0x100 % 256 > 150 && pixel % 256 < 100
}

/// Yellow pixels among the first `n` of the last five columns of a row.
pub open spec fn row_count(fb: Seq<u32>, y: int, n: nat) -> nat
    decreases n,
{
    if n == 0 {
        0
    } else {
        row_count(fb, y, (n - 1) as nat) + if is_yellow(fb[y * 160 + 155 + (n - 1)]) {
            1nat
        } else {
            0
        }
    }
}

/// Yellow pixels in the last five columns of the first `n` rows.
pub open spec fn edge_count(fb: Seq<u32>, n: nat) -> nat
    decreases n,
{
    if n == 0 {
        0
    } else {
        edge_count(fb, (n - 1) as nat) + row_count(fb, n - 1, 5)
    }
}

/// The rows among the first `n` that have yellow pixels there.
pub open spec fn edge_rows(fb: Seq<u32>, n: nat) -> Seq<usize>
    decreases n,
{
    if n == 0 {
        seq![]
    } else if row_count(fb, n - 1, 5) > 0 {
        edge_rows(fb, (n - 1) as nat).push((n - 1) as usize)
    } else {
        edge_rows(fb, (n - 1) as nat)
    }
}

/// Yellow pixels at the right edge of the screen.
pub struct RightEdge {
    pub count: u32,
    pub rows: Vec<usize>,
}

/// Look for yellow pixels in the last five columns of a screen.
pub fn analyze_right_edge(fb: &[u32]) -> (r: RightEdge)
    requires
        fb@.len() == 160 * 144,
    ensures
        r.count == edge_count(fb@, 144),
        r.rows@ == edge_rows(fb@, 144),
{
    let mut r = RightEdge { count: 0, rows: Vec::new() };
    let mut y: usize = 0;
    while y < 144
        invariant
            y <= 144,
            fb@.len() == 160 * 144,
            r.count <= 5 * y,
            r.count == edge_count(fb@, y as nat),
            r.rows@ == edge_rows(fb@, y as nat),
        decreases 144 - y,
    {
        let mut here: u32 = 0;
        let mut k: usize = 0;
        while k < 5
            invariant
                k <= 5,
                y < 144,
                fb@.len() == 160 * 144,
                here <= k,
                here == row_count(fb@, y as int, k as nat),
            decreases 5 - k,
        {
            if yellow(fb[y * 160 + 155 + k]) {
                here += 1;
            }
            k += 1;
        }
        r.count = r.count + here;
        if here > 0 {
            r.rows.push(y);
        }
        y += 1;
    }
    r
}

/// How far a counter of 16 bits has come.
pub fn timer_delta(before: u16, after: u16) -> (r: u16)
    ensures
        r == (after - before) % 0x1_0000,
{
    after.wrapping_sub(before)
}

/// One step of the processor: where, what, and the timer before and after.
#[derive(Clone, Copy, PartialEq, Eq, Structural)]
pub struct TraceEntry {
    pub pc: u16,
    pub opcode: u8,
    pub timer_before: u16,
    pub timer_after: u16,
}

/// How many steps a trace keeps.
pub const HISTORY: usize = 30;

/// The last steps of a longer trace.
pub open spec fn last_steps(all: Seq<TraceEntry>) -> Seq<TraceEntry> {
    if all.len() <= HISTORY {
        all
    } else {
        all.skip(all.len() - HISTORY)
    }
}

/// Add a step to a trace, which keeps the last thirty.
pub fn push_history(history: &mut Vec<TraceEntry>, e: TraceEntry)
    requires
        old(history)@.len() <= HISTORY,
    ensures
        final(history)@ == last_steps(old(history)@.push(e)),
        final(history)@.len() <= HISTORY,
{
    history.push(e);
    if history.len() > HISTORY {
        let _first = history.remove(0);
    }
    assert(history@ =~= last_steps(old(history)@.push(e)));
}

/// Keeping the last steps one by one gives the last steps of the whole trace.
pub proof fn law_history_is_the_last_steps(all: Seq<TraceEntry>, e: TraceEntry)
    ensures
        last_steps(last_steps(all).push(e)) == last_steps(all.push(e)),
{
    assert(last_steps(last_steps(all).push(e)) =~= last_steps(all.push(e)));
}

/// Whether the boot ROM has handed over.
pub fn boot_is_done(pc: u16, boot_rom_active: bool) -> (r: bool)
    ensures
        r == (pc == 0x100 && !boot_rom_active),
{
    pc == 0x100 && !boot_rom_active
}

/// The models that are calibrated, in order.
pub fn calibrated_models() -> (r: [GbModel; 7])
    ensures
        r@ == seq![
            GbModel::Dmg0,
            GbModel::Dmg,
            GbModel::Mgb,
            GbModel::Sgb,
            GbModel::Sgb2,
            GbModel::Cgb,
            GbModel::Agb,
        ],
{
    let r: [GbModel; 7] = [
        GbModel::Dmg0,
        GbModel::Dmg,
        GbModel::Mgb,
        GbModel::Sgb,
        GbModel::Sgb2,
        GbModel::Cgb,
        GbModel::Agb,
    ];
    r
}

} // verus!
