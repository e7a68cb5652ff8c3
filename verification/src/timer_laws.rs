//! Laws of the timer over the bits of its registers.

use vstd::prelude::*;

use crate::model::GbModel;
use crate::timer::{
    boot_counter, bytes_ones, bytes_sum, group_last, group_len, group_ones, law_overflow_reloads,
    law_tima_rate, ones, packets_ones, period, ticked_n, timer_read, timer_written, Timer,
};

verus! {

/// Half the cycles between two increments of TIMA, by the low two bits of TAC.
pub open spec fn half_period(tac: u8) -> int {
    if tac as int % 4 == 0 {
        512
    } else if tac as int % 4 == 1 {
        8
    } else if tac as int % 4 == 2 {
        32
    } else {
        128
    }
}

/// The signal that drives TIMA: a bit of the counter, while bit 2 of TAC lets it
/// through.
pub open spec fn signal(t: Timer, tac: u8) -> bool {
    tac as int / 4 % 2 == 1 && t.counter as int / half_period(tac) % 2 == 1
}

/// TIMA counts the cycles in units of 1024, 16, 64 or 256, as the low two bits of
/// TAC say, while bit 2 is set.
pub proof fn law_timer_rates(t: Timer, n: nat)
    requires
        t.tac as int / 4 % 2 == 1,
        t.overflow_delay == 0,
        t.tima + ((t.counter + n) / (2 * half_period(t.tac)) - t.counter as int / (2 * half_period(
            t.tac,
        ))) <= 255,
    ensures
        ticked_n(t, n).tima == t.tima + ((t.counter + n) / (2 * half_period(t.tac))
            - t.counter as int / (2 * half_period(t.tac))),
        ticked_n(t, n).interrupt == t.interrupt,
{
    assert(period(t.tac) == 2 * half_period(t.tac));
    law_tima_rate(t, n);
}

/// When TIMA passes 255 it stays at zero for four cycles, then takes TMA and asks
/// for the interrupt.
pub proof fn law_timer_overflows(t: Timer)
    requires
        t.tac as int / 4 % 2 == 1,
        t.overflow_delay == 0,
        t.tima == 255,
        (t.counter + 1) % (2 * half_period(t.tac)) == 0,
    ensures
        ticked_n(t, 1).tima == 0,
        ticked_n(t, 4).tima == 0,
        ticked_n(t, 4).interrupt == t.interrupt,
        ticked_n(t, 5).tima == t.tma,
        ticked_n(t, 5).interrupt,
{
    assert(period(t.tac) == 2 * half_period(t.tac));
    law_overflow_reloads(t);
}

/// TIMA after an increment out of turn: past 255 it takes TMA at once and asks for
/// the interrupt.
pub open spec fn counted_up(t: Timer) -> Timer {
    if t.tima == 255 {
        Timer { tima: t.tma, interrupt: true, ..t }
    } else {
        Timer { tima: (t.tima + 1) as u8, ..t }
    }
}

/// A write that makes the driving signal fall counts TIMA up: one to DIV, which
/// clears the counter, where the signal was high; one to TAC where it was high and is
/// not any more. Any other write to them does not.
pub proof fn law_falling_signal_counts(t: Timer, val: u8)
    requires
        t.tac < 8,
    ensures
        timer_written(t, 0xFF04, val) == (if signal(t, t.tac) {
            Timer { counter: 0, ..counted_up(t) }
        } else {
            Timer { counter: 0, ..t }
        }),
        ({
            let set = Timer { tac: (val % 8) as u8, ..t };
            timer_written(t, 0xFF07, val) == if signal(t, t.tac) && !signal(t, val) {
                counted_up(set)
            } else {
                set
            }
        }),
{
    lemma_upper_half(t.counter as int, t.tac);
    lemma_upper_half(t.counter as int, (val % 8) as u8);
    assert(half_period((val % 8) as u8) == half_period(val));
    assert((val % 8) as int / 4 % 2 == val as int / 4 % 2);
}

proof fn lemma_upper_half(c: int, tac: u8)
    requires
        0 <= c,
    ensures
        (c % period(tac) >= period(tac) / 2) == (c / half_period(tac) % 2 == 1),
{
    let sel = tac as int % 4;
    if sel == 0 {
        assert((c % 1024 >= 512) == (c / 512 % 2 == 1));
    } else if sel == 1 {
        assert((c % 16 >= 8) == (c / 8 % 2 == 1));
    } else if sel == 2 {
        assert((c % 64 >= 32) == (c / 32 % 2 == 1));
    } else {
        assert((c % 256 >= 128) == (c / 128 % 2 == 1));
    }
}

/// A write to TIMA calls a pending reload off; in the step of the reload it is lost,
/// and TMA written then reaches TIMA too.
pub proof fn law_writes_around_a_reload(t: Timer, val: u8)
    ensures
        !t.reload_fired ==> timer_written(t, 0xFF05, val) == (Timer {
            tima: val,
            overflow_delay: 0,
            ..t
        }),
        t.reload_fired ==> timer_written(t, 0xFF05, val) == t,
        timer_written(t, 0xFF06, val) == (Timer {
            tma: val,
            tima: if t.reload_fired {
                val
            } else {
                t.tima
            },
            ..t
        }),
{
}

/// The four registers: DIV is the upper byte of the counter, and the unused bits of
/// TAC read as ones.
pub proof fn law_timer_reads(t: Timer)
    requires
        t.tac < 8 || t.tac >= 0xF8,
    ensures
        timer_read(t, 0xFF04) == t.counter as int / 0x100,
        timer_read(t, 0xFF05) == t.tima,
        timer_read(t, 0xFF06) == t.tma,
        timer_read(t, 0xFF07) == 0xF8 + t.tac as int % 8,
{
}

/// Where the counter stands when the boot program of a model is done.
pub proof fn law_boot_counters(model: GbModel, cgb_game: bool, rom: Seq<u8>)
    ensures
        model == GbModel::Dmg || model == GbModel::Mgb ==> boot_counter(model, cgb_game, rom)
            == 0xABCC,
        model == GbModel::Dmg0 ==> boot_counter(model, cgb_game, rom) == 0x1830,
        model == GbModel::Cgb || model == GbModel::Cgb0 ==> boot_counter(model, cgb_game, rom) == if
        cgb_game {
            0x1EA4int
        } else {
            0x267C
        },
        model == GbModel::Agb ==> boot_counter(model, cgb_game, rom) == boot_counter(
            GbModel::Cgb,
            cgb_game,
            rom,
        ) + 4,
{
}

// ── The Super Game Boy's packets ──

/// How many bits of a byte are set.
pub open spec fn set_bits(b: int) -> int {
    b % 2 + b / 2 % 2 + b / 4 % 2 + b / 8 % 2 + b / 16 % 2 + b / 32 % 2 + b / 64 % 2 + b / 128 % 2
}

/// A byte of the program, zero behind its end.
pub open spec fn header(rom: Seq<u8>, i: int) -> int {
    if i < rom.len() {
        rom[i] as int
    } else {
        0
    }
}

/// The bytes `n` of the header from `first` on, added up, and their set bits.
pub open spec fn header_sum(rom: Seq<u8>, first: int, n: nat) -> int
    decreases n,
{
    if n == 0 {
        0
    } else {
        header(rom, first) + header_sum(rom, first + 1, (n - 1) as nat)
    }
}

pub open spec fn header_bits(rom: Seq<u8>, first: int, n: nat) -> int
    decreases n,
{
    if n == 0 {
        0
    } else {
        set_bits(header(rom, first)) + header_bits(rom, first + 1, (n - 1) as nat)
    }
}

/// The set bits of packet `p` of six: its command, $F1 and two more for each, the
/// sum of its data, and the data, fourteen bytes of the header from $0104 on, six in
/// the last.
pub open spec fn packet_bits(rom: Seq<u8>, p: int) -> int {
    let n: nat = if p == 5 {
        6
    } else {
        14
    };
    set_bits(0xF1 + 2 * p) + set_bits(header_sum(rom, 0x104 + 14 * p, n) % 0x100) + header_bits(
        rom,
        0x104 + 14 * p,
        n,
    )
}

proof fn lemma_set_bits(b: int)
    requires
        0 <= b < 256,
    ensures
        ones(b) == set_bits(b),
{
    reveal_with_fuel(ones, 9);
    let b1 = b / 2;
    let b2 = b1 / 2;
    let b3 = b2 / 2;
    let b4 = b3 / 2;
    let b5 = b4 / 2;
    let b6 = b5 / 2;
    let b7 = b6 / 2;
    assert(b2 == b / 4 && b3 == b / 8 && b4 == b / 16 && b5 == b / 32 && b6 == b / 64 && b7 == b
        / 128);
    assert(b7 / 2 == 0);
    assert(b <= 0 ==> b == 0);
}

proof fn lemma_header(rom: Seq<u8>, last: int, n: nat)
    requires
        last >= n,
    ensures
        bytes_sum(rom, last, n) == header_sum(rom, last - n + 1, n),
        bytes_ones(rom, last, n) == header_bits(rom, last - n + 1, n),
    decreases n,
{
    if n > 0 {
        lemma_header(rom, last, (n - 1) as nat);
        lemma_set_bits(header(rom, last - (n - 1)));
        assert(last - (n - 1) + 1 == last - n + 1 + 1);
    }
}

/// The boot program of a Super Game Boy takes four cycles less of the counter for
/// every bit that is set in the six packets it sends.
pub proof fn law_sgb_boot_counter(rom: Seq<u8>, cgb_game: bool)
    ensures
        ({
            let bits = packet_bits(rom, 0) + packet_bits(rom, 1) + packet_bits(rom, 2)
                + packet_bits(rom, 3) + packet_bits(rom, 4) + packet_bits(rom, 5);
            &&& 0xDD74 - 4 * bits == boot_counter(GbModel::Sgb, cgb_game, rom) || 4 * bits > 0xDD74
            &&& boot_counter(GbModel::Sgb2, cgb_game, rom) == boot_counter(
                GbModel::Sgb,
                cgb_game,
                rom,
            )
        }),
{
    lemma_packet(rom, 0);
    lemma_packet(rom, 1);
    lemma_packet(rom, 2);
    lemma_packet(rom, 3);
    lemma_packet(rom, 4);
    lemma_packet(rom, 5);
    reveal_with_fuel(packets_ones, 7);
}

proof fn lemma_packet(rom: Seq<u8>, g: int)
    requires
        0 <= g < 6,
    ensures
        group_ones(rom, g) == packet_bits(rom, 5 - g),
        packet_bits(rom, 5 - g) >= 0,
{
    let last = group_last(g);
    let n = group_len(g);
    lemma_header(rom, last, n);
    assert(last - n + 1 == 0x104 + 14 * (5 - g));
    lemma_set_bits(bytes_sum(rom, last, n) % 256);
    lemma_set_bits(0xFB - 2 * g);
    lemma_bits_count(rom, last - n + 1, n);
}

proof fn lemma_bits_count(rom: Seq<u8>, first: int, n: nat)
    ensures
        header_bits(rom, first, n) >= 0,
    decreases n,
{
    if n > 0 {
        lemma_bits_count(rom, first + 1, (n - 1) as nat);
    }
}

} // verus!
