//! Laws of pacing, saving and input over plain numbers.

use vstd::prelude::*;

use crate::gamepad::{held_bits, Pressed, Tilt};
use crate::session::{HoldInputs, Pacing, Play};
use crate::ui_util::SavFlusher;

verus! {

/// What is held decides, in this order: rewinding goes back three frames a tick,
/// fast forward runs four, slow motion one for every two frame times; only otherwise
/// does the clock or the sound decide. The debt of time is gone after the first two.
pub proof fn law_held_keys_decide(
    p: Pacing,
    hold: HoldInputs,
    queued: Option<usize>,
    sample_rate: u32,
    now: u64,
)
    requires
        p.wf(),
        !p.paused,
    ensures
        ({
            let plan = p.plan(hold, queued, sample_rate, now);
            &&& plan.rewinding == hold.rewind
            &&& hold.rewind ==> plan.play == (Play::Backward { frames: 3 })
            &&& !hold.rewind && hold.fast_forward ==> plan.play == (Play::Fast { frames: 4 })
            &&& hold.rewind || hold.fast_forward ==> p.ticked(hold, queued, now).time_debt == 0
            &&& p.ticked(hold, queued, now).last_tick == Some(now)
        }),
{
}

/// With sound, less than one and a half frames of it in the queue ask for two frames,
/// more than eight for none, and anything between for one. A frame is a sixtieth of
/// a second.
pub proof fn law_sound_sets_the_pace(p: Pacing, queued: usize, sample_rate: u32, now: u64)
    requires
        p.wf(),
        !p.paused,
    ensures
        ({
            let hold = HoldInputs { rewind: false, fast_forward: false, slow_motion: false };
            let frame = sample_rate as int / 60;
            let frames: u32 = if queued < 3 * frame / 2 {
                2
            } else if queued > 8 * frame {
                0
            } else {
                1
            };
            p.plan(hold, Some(queued), sample_rate, now).play == (Play::Forward { frames })
        }),
{
}

/// Without sound, the frames whose time has come since the last tick are emulated,
/// at most two, and never more than four frame times are owed.
pub proof fn law_clock_sets_the_pace(p: Pacing, sample_rate: u32, then: u64, now: u64, n: int)
    requires
        p.wf(),
        !p.paused,
        p.last_tick == Some(then),
        then <= now,
        n >= 0,
        n * p.frame <= p.time_debt + (now - then) < (n + 1) * p.frame,
    ensures
        ({
            let hold = HoldInputs { rewind: false, fast_forward: false, slow_motion: false };
            let frames: u32 = if n < 2 {
                n as u32
            } else {
                2
            };
            let owed = if p.time_debt + (now - then) < 4 * p.frame {
                p.time_debt + (now - then)
            } else {
                4 * p.frame
            };
            &&& p.plan(hold, None, sample_rate, now).play == (Play::Forward { frames })
            &&& p.ticked(hold, None, now).time_debt == owed - frames * p.frame
        }),
{
    let f = p.frame as int;
    let t = p.time_debt + (now - then);
    let owed = if t < 4 * f {
        t
    } else {
        4 * f
    };
    assert(p.owed(now) == owed);
    if t < 4 * f {
        assert(n <= 3) by (nonlinear_arith)
            requires
                n * f <= t,
                t < 4 * f,
                f >= 1,
        ;
        assert((n + 1) * f == n * f + f) by (nonlinear_arith);
        vstd::arithmetic::div_mod::lemma_fundamental_div_mod_converse(t, f, n, t - n * f);
    } else {
        assert(n >= 4) by (nonlinear_arith)
            requires
                t < (n + 1) * f,
                t >= 4 * f,
                f >= 1,
        ;
        vstd::arithmetic::div_mod::lemma_fundamental_div_mod_converse(4 * f, f, 4, 0);
    }
}

/// A changed save is written a second after it was last seen to change, or ten after
/// it was first seen changed; one that has not changed, or without a battery, never.
pub proof fn law_saves_are_written_in_time(
    f: SavFlusher,
    battery: bool,
    generation: u64,
    first: u64,
    last: u64,
    now: u64,
)
    requires
        f.dirty == Some((first, last)),
        f.seen_generation == generation,
        first <= last <= now,
    ensures
        f.writes(battery, generation, now) <==> battery && generation != f.flushed_generation && (
        now - last >= 1_000_000_000 || now - first >= 10_000_000_000),
        f.writes(battery, generation, now) ==> f.polled(battery, generation, now).flushed_generation
            == generation && f.polled(battery, generation, now).dirty is None,
        battery && !f.writes(battery, generation, now) ==> f.polled(
            battery,
            generation,
            now,
        ).flushed_generation == f.flushed_generation,
{
}

/// The bits of a gamepad are those of its held buttons together. Up, down, left and
/// right are the last four, and the stick holds them too: up and right are positive.
pub proof fn law_held_buttons_set_their_bits(p: Pressed, bits: Seq<u8>, mask: u8, n: nat)
    requires
        bits.len() == 8,
        n <= 8,
    ensures
        (held_bits(p, bits, n) & mask != 0) == (exists|k: int|
            0 <= k < n && #[trigger] bits[k] & mask != 0 && pressed(p, k)),
    decreases n,
{
    if n == 0 {
        assert(0u8 & mask == 0) by (bit_vector);
    } else {
        law_held_buttons_set_their_bits(p, bits, mask, (n - 1) as nat);
        let a = held_bits(p, bits, (n - 1) as nat);
        let b = bits[n - 1];
        assert(((a | b) & mask != 0) == (a & mask != 0 || b & mask != 0)) by (bit_vector);
        if held_bits(p, bits, n) & mask != 0 && a & mask != 0 {
            let k = choose|k: int|
                0 <= k < n - 1 && #[trigger] bits[k] & mask != 0 && pressed(p, k);
            assert(0 <= k < n && bits[k] & mask != 0);
        }
        assert(bits[n - 1] == b);
    }
}

/// Whether a button is pressed, or the stick tilted its way.
pub open spec fn pressed(p: Pressed, k: int) -> bool {
    let tilted = if k == 4 {
        p.stick_y == Tilt::Positive
    } else if k == 5 {
        p.stick_y == Tilt::Negative
    } else if k == 6 {
        p.stick_x == Tilt::Negative
    } else if k == 7 {
        p.stick_x == Tilt::Positive
    } else {
        false
    };
    p.buttons@[k] || tilted
}

} // verus!
