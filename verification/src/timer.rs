//! Timer: DIV (0xFF04), TIMA (0xFF05), TMA (0xFF06), TAC (0xFF07).
//!
//! DIV is the upper byte of a 16-bit counter that increments every T-cycle.
//! TIMA counts at the rate that TAC selects; when it overflows it is reloaded
//! from TMA four cycles later and an interrupt is requested.

use vstd::prelude::*;

use crate::model::GbModel;

verus! {

/// State of the timer.
#[derive(Clone, Copy)]
pub struct Timer {
    /// Internal counter; DIV is its upper byte.
    pub counter: u16,
    pub tima: u8,
    pub tma: u8,
    /// Bit 2 enables TIMA, bits 1-0 select its clock.
    pub tac: u8,
    /// Interrupt request.
    pub interrupt: bool,
    /// Cycles until an overflowed TIMA is reloaded; 0 when none is due.
    pub overflow_delay: u8,
    /// The reload happened during the current `step`.
    pub reload_fired: bool,
}

// ── Model ──

pub open spec fn enabled(t: Timer) -> bool {
    t.tac / 4 % 2 == 1
}

/// T-cycles between two increments of TIMA.
pub open spec fn period(tac: u8) -> int {
    let sel = tac as int % 4;
    if sel == 0 {
        1024
    } else if sel == 1 {
        16
    } else if sel == 2 {
        64
    } else {
        256
    }
}

/// The signal whose falling edge increments TIMA: high in the second half of
/// each period while the timer is enabled.
pub open spec fn mux(t: Timer) -> bool {
    enabled(t) && t.counter as int % period(t.tac) >= period(t.tac) / 2
}

/// TIMA after an increment; an overflow starts the reload delay.
pub open spec fn tima_incremented(t: Timer) -> Timer {
    if t.tima == 255 {
        Timer { tima: 0, overflow_delay: 4, ..t }
    } else {
        Timer { tima: (t.tima + 1) as u8, ..t }
    }
}

/// TIMA after an increment that a register write caused: an overflow reloads
/// and requests the interrupt at once.
pub open spec fn tima_glitched(t: Timer) -> Timer {
    if t.tima == 255 {
        Timer { tima: t.tma, interrupt: true, ..t }
    } else {
        Timer { tima: (t.tima + 1) as u8, ..t }
    }
}

/// The pending reload moves one cycle closer, and happens when it is due.
pub open spec fn delay_advanced(t: Timer) -> Timer {
    if t.overflow_delay == 0 {
        t
    } else if t.overflow_delay == 1 {
        Timer { overflow_delay: 0, tima: t.tma, interrupt: true, reload_fired: true, ..t }
    } else {
        Timer { overflow_delay: (t.overflow_delay - 1) as u8, ..t }
    }
}

/// One T-cycle.
pub open spec fn ticked(t: Timer) -> Timer {
    let t1 = delay_advanced(Timer { counter: ((t.counter + 1) % 0x1_0000) as u16, ..t });
    if enabled(t1) && t1.counter as int % period(t1.tac) == 0 {
        tima_incremented(t1)
    } else {
        t1
    }
}

/// `n` T-cycles.
pub open spec fn ticked_n(t: Timer, n: nat) -> Timer
    decreases n,
{
    if n == 0 {
        t
    } else {
        ticked(ticked_n(t, (n - 1) as nat))
    }
}

/// One call of `step`.
pub open spec fn timer_stepped(t: Timer, cycles: nat) -> Timer {
    ticked_n(Timer { reload_fired: false, ..t }, cycles)
}

pub open spec fn timer_read(t: Timer, addr: u16) -> u8 {
    if addr == 0xFF04 {
        (t.counter / 0x100) as u8
    } else if addr == 0xFF05 {
        t.tima
    } else if addr == 0xFF06 {
        t.tma
    } else if addr == 0xFF07 {
        (0xF8 + t.tac % 8) as u8
    } else {
        0xFF
    }
}

pub open spec fn timer_written(t: Timer, addr: u16, val: u8) -> Timer {
    if addr == 0xFF04 {
        let t1 = if mux(t) {
            tima_glitched(t)
        } else {
            t
        };
        Timer { counter: 0, ..t1 }
    } else if addr == 0xFF05 {
        if t.reload_fired {
            t
        } else {
            Timer { tima: val, overflow_delay: 0, ..t }
        }
    } else if addr == 0xFF06 {
        if t.reload_fired {
            Timer { tma: val, tima: val, ..t }
        } else {
            Timer { tma: val, ..t }
        }
    } else if addr == 0xFF07 {
        let t1 = Timer { tac: (val % 8) as u8, ..t };
        if mux(t) && !mux(t1) {
            tima_glitched(t1)
        } else {
            t1
        }
    } else {
        t
    }
}

/// A timer with nothing pending.
pub open spec fn timer_at(counter: u16) -> Timer {
    Timer {
        counter,
        tima: 0,
        tma: 0,
        tac: 0xF8,
        interrupt: false,
        overflow_delay: 0,
        reload_fired: false,
    }
}

/// Number of one bits.
pub open spec fn ones(b: int) -> int
    decreases b,
{
    if b <= 0 {
        0
    } else {
        b % 2 + ones(b / 2)
    }
}

pub open spec fn rom_byte(rom: Seq<u8>, i: int) -> int {
    if 0 <= i < rom.len() {
        rom[i] as int
    } else {
        0
    }
}

/// Sum of the `n` bytes that end at `last`.
pub open spec fn bytes_sum(rom: Seq<u8>, last: int, n: nat) -> int
    decreases n,
{
    if n == 0 {
        0
    } else {
        rom_byte(rom, last - (n - 1)) + bytes_sum(rom, last, (n - 1) as nat)
    }
}

/// One bits of the `n` bytes that end at `last`.
pub open spec fn bytes_ones(rom: Seq<u8>, last: int, n: nat) -> int
    decreases n,
{
    if n == 0 {
        0
    } else {
        ones(rom_byte(rom, last - (n - 1))) + bytes_ones(rom, last, (n - 1) as nat)
    }
}

/// Last header byte and byte count of packet `g`, counted from the end of the
/// header: six bytes end at $14F, then groups of fourteen go downwards.
pub open spec fn group_last(g: int) -> int {
    if g == 0 {
        0x14F
    } else {
        0x149 - 14 * (g - 1)
    }
}

pub open spec fn group_len(g: int) -> nat {
    if g == 0 {
        6
    } else {
        14
    }
}

/// One bits of packet `g`: its header bytes, their checksum, and its command
/// byte ($FB, $F9, ... $F1).
pub open spec fn group_ones(rom: Seq<u8>, g: int) -> int {
    bytes_ones(rom, group_last(g), group_len(g)) + ones(
        bytes_sum(rom, group_last(g), group_len(g)) % 256,
    ) + ones(0xFB - 2 * g)
}

/// One bits of the first `n` packets.
pub open spec fn packets_ones(rom: Seq<u8>, n: nat) -> int
    decreases n,
{
    if n == 0 {
        0
    } else {
        packets_ones(rom, (n - 1) as nat) + group_ones(rom, n - 1)
    }
}

/// Counter that the boot ROM of a model leaves behind.
pub open spec fn boot_counter(model: GbModel, is_cgb_game: bool, rom: Seq<u8>) -> u16 {
    match model {
        GbModel::Cgb | GbModel::Cgb0 => if is_cgb_game {
            0x1EA4
        } else {
            0x267C
        },
        GbModel::Agb => if is_cgb_game {
            0x1EA8
        } else {
            0x2680
        },
        GbModel::Dmg0 => 0x1830,
        GbModel::Dmg | GbModel::Mgb => 0xABCC,
        GbModel::Sgb | GbModel::Sgb2 => (0xDD74 - 4 * packets_ones(rom, 6)) as u16,
    }
}

// ── Implementation ──

impl Timer {
    /// The timer of a color game after the boot ROM.
    pub fn new() -> (t: Self)
        ensures
            t == timer_at(0x1EA4),
    {
        let rom: [u8; 0] = [];
        Self::post_boot(GbModel::Cgb, true, &rom)
    }

    /// Hardware reset: the counter starts at 8 to account for two internal
    /// startup cycles.
    pub fn reset() -> (t: Self)
        ensures
            t == timer_at(8),
    {
        Self::at(8)
    }

    fn at(counter: u16) -> (t: Self)
        ensures
            t == timer_at(counter),
    {
        Timer {
            counter,
            tima: 0,
            tma: 0,
            tac: 0xF8,
            interrupt: false,
            overflow_delay: 0,
            reload_fired: false,
        }
    }

    /// Timer state that the boot ROM of a model leaves behind. On a Super
    /// Game Boy it depends on the header bytes, which are sent as packets:
    /// each one bit takes four cycles less than a zero bit.
    pub fn post_boot(model: GbModel, is_cgb_game: bool, rom: &[u8]) -> (t: Self)
        ensures
            t == timer_at(boot_counter(model, is_cgb_game, rom@)),
    {
        let counter: u16 = match model {
            GbModel::Cgb | GbModel::Cgb0 => {
                if is_cgb_game {
                    0x1EA4
                } else {
                    0x267C
                }
            },
            GbModel::Agb => {
                if is_cgb_game {
                    0x1EA8
                } else {
                    0x2680
                }
            },
            GbModel::Dmg0 => 0x1830,
            GbModel::Dmg | GbModel::Mgb => 0xABCC,
            GbModel::Sgb | GbModel::Sgb2 => {
                let ones: u32 = sgb_packet_popcount(rom);
                0xDD74 - 4 * (ones as u16)
            },
        };
        Self::at(counter)
    }

    /// Advance by `cycles` T-cycles.
    pub fn step(&mut self, cycles: u32)
        ensures
            *final(self) == timer_stepped(*old(self), cycles as nat),
    {
        self.reload_fired = false;
        let ghost start = *self;
        let mut i: u32 = 0;
        while i < cycles
            invariant
                i <= cycles,
                *self == ticked_n(start, i as nat),
            decreases cycles - i,
        {
            self.tick_once();
            i = i + 1;
        }
    }

    fn tick_once(&mut self)
        ensures
            *final(self) == ticked(*old(self)),
    {
        self.counter = self.counter.wrapping_add(1);
        if self.overflow_delay > 0 {
            self.overflow_delay = self.overflow_delay - 1;
            if self.overflow_delay == 0 {
                self.tima = self.tma;
                self.interrupt = true;
                self.reload_fired = true;
            }
        }
        if self.is_enabled() && self.counter % self.tima_period() == 0 {
            self.increment_tima();
        }
    }

    fn is_enabled(&self) -> (r: bool)
        ensures
            r == enabled(*self),
    {
        self.tac / 4 % 2 == 1
    }

    /// T-cycles between two increments of TIMA.
    fn tima_period(&self) -> (r: u16)
        ensures
            r == period(self.tac),
            16 <= r <= 1024,
    {
        match self.tac % 4 {
            0 => 1024,
            1 => 16,
            2 => 64,
            _ => 256,
        }
    }

    fn increment_tima(&mut self)
        ensures
            *final(self) == tima_incremented(*old(self)),
    {
        self.tima = self.tima.wrapping_add(1);
        if self.tima == 0 {
            self.overflow_delay = 4;
        }
    }

    fn increment_tima_glitch(&mut self)
        ensures
            *final(self) == tima_glitched(*old(self)),
    {
        self.tima = self.tima.wrapping_add(1);
        if self.tima == 0 {
            self.tima = self.tma;
            self.interrupt = true;
        }
    }

    fn mux_output(&self) -> (r: bool)
        ensures
            r == mux(*self),
    {
        let p: u16 = self.tima_period();
        self.is_enabled() && self.counter % p >= p / 2
    }

    /// Read a register; other addresses read as 0xFF.
    pub fn read(&self, addr: u16) -> (v: u8)
        ensures
            v == timer_read(*self, addr),
    {
        match addr {
            0xFF04 => (self.counter / 0x100) as u8,
            0xFF05 => self.tima,
            0xFF06 => self.tma,
            0xFF07 => 0xF8 + self.tac % 8,
            _ => 0xFF,
        }
    }

    /// Write a register. A write to DIV resets the counter, and a falling edge
    /// of the clock signal that a write causes counts as a TIMA increment.
    pub fn write(&mut self, addr: u16, val: u8)
        ensures
            *final(self) == timer_written(*old(self), addr, val),
    {
        match addr {
            0xFF04 => {
                if self.mux_output() {
                    self.increment_tima_glitch();
                }
                self.counter = 0;
            },
            0xFF05 => {
                if !self.reload_fired {
                    self.tima = val;
                    self.overflow_delay = 0;
                }
            },
            0xFF06 => {
                self.tma = val;
                if self.reload_fired {
                    self.tima = val;
                }
            },
            0xFF07 => {
                let before: bool = self.mux_output();
                self.tac = val % 8;
                let after: bool = self.mux_output();
                if before && !after {
                    self.increment_tima_glitch();
                }
            },
            _ => {},
        }
    }

    /// Withdraw the interrupt request.
    pub fn clear_interrupt(&mut self)
        ensures
            *final(self) == (Timer { interrupt: false, ..*old(self) }),
    {
        self.interrupt = false;
    }

    /// The internal counter, which also clocks the serial port.
    pub fn counter(&self) -> (c: u16)
        ensures
            c == self.counter,
    {
        self.counter
    }
}

fn count_ones(b: u8) -> (r: u32)
    ensures
        r == ones(b as int),
        r <= 8,
{
    reveal_with_fuel(ones, 9);
    let mut r: u32 = 0;
    let mut left: u8 = b;
    let mut i: u32 = 0;
    while i < 8
        invariant
            i <= 8,
            r <= i,
            r + ones(left as int) == ones(b as int),
            i == 0 ==> left <= 255,
            i == 1 ==> left <= 127,
            i == 2 ==> left <= 63,
            i == 3 ==> left <= 31,
            i == 4 ==> left <= 15,
            i == 5 ==> left <= 7,
            i == 6 ==> left <= 3,
            i == 7 ==> left <= 1,
            i == 8 ==> left == 0,
        decreases 8 - i,
    {
        r = r + (left % 2) as u32;
        left = left / 2;
        i = i + 1;
    }
    r
}

/// Number of one bits in the packets that a Super Game Boy's boot ROM builds
/// from the header bytes $0104-$014F.
pub fn sgb_packet_popcount(rom: &[u8]) -> (r: u32)
    ensures
        r == packets_ones(rom@, 6),
        r <= 768,
{
    let mut total: u32 = 0;
    let mut g: usize = 0;
    while g < 6
        invariant
            g <= 6,
            total == packets_ones(rom@, g as nat),
            total <= 128 * g,
        decreases 6 - g,
    {
        let last: usize = if g == 0 {
            0x14F
        } else {
            0x149 - 14 * (g - 1)
        };
        let len: usize = if g == 0 {
            6
        } else {
            14
        };
        let mut sum: u8 = 0;
        let mut bits: u32 = 0;
        let mut i: usize = 0;
        while i < len
            invariant
                i <= len <= 14,
                14 <= last <= 0x14F,
                sum == bytes_sum(rom@, last as int, i as nat) % 256,
                bits == bytes_ones(rom@, last as int, i as nat),
                bits <= 8 * i,
            decreases len - i,
        {
            let at: usize = last - i;
            let byte: u8 = if at < rom.len() {
                rom[at]
            } else {
                0
            };
            sum = sum.wrapping_add(byte);
            bits = bits + count_ones(byte);
            i = i + 1;
        }
        let command: u8 = 0xFB - 2 * (g as u8);
        total = total + bits + count_ones(sum) + count_ones(command);
        g = g + 1;
    }
    total
}

// ── Laws ──

/// The counter counts T-cycles, modulo its width.
pub proof fn law_counter_counts_cycles(t: Timer, n: nat)
    ensures
        ticked_n(t, n).counter == (t.counter + n) % 0x1_0000,
    decreases n,
{
    if n > 0 {
        law_counter_counts_cycles(t, (n - 1) as nat);
    }
}

/// Running for `a` and then for `b` cycles is running for `a + b` cycles.
pub proof fn law_ticks_compose(t: Timer, a: nat, b: nat)
    ensures
        ticked_n(ticked_n(t, a), b) == ticked_n(t, a + b),
    decreases b,
{
    if b > 0 {
        law_ticks_compose(t, a, (b - 1) as nat);
    }
}

proof fn lemma_period_divides(tac: u8, n: nat)
    ensures
        n as int % 0x1_0000 % period(tac) == n as int % period(tac),
        n > 0 && n as int % period(tac) == 0 ==> n as int / period(tac) == (n - 1) / period(tac)
            + 1,
        n > 0 && n as int % period(tac) != 0 ==> n as int / period(tac) == (n - 1) / period(tac),
{
    let i = n as int;
    let p = period(tac);
    if p == 1024 {
        assert(i % 0x1_0000 % 1024 == i % 1024);
    } else if p == 16 {
        assert(i % 0x1_0000 % 16 == i % 16);
    } else if p == 64 {
        assert(i % 0x1_0000 % 64 == i % 64);
    } else {
        assert(i % 0x1_0000 % 256 == i % 256);
    }
}

/// TIMA is incremented once per period: while it does not overflow, its
/// advance over `n` cycles is the number of period boundaries passed.
pub proof fn law_tima_rate(t: Timer, n: nat)
    requires
        enabled(t),
        t.overflow_delay == 0,
        t.tima + ((t.counter + n) / period(t.tac) - t.counter as int / period(t.tac)) <= 255,
    ensures
        ticked_n(t, n).tima == t.tima + ((t.counter + n) / period(t.tac) - t.counter as int
            / period(t.tac)),
        ticked_n(t, n).overflow_delay == 0,
        ticked_n(t, n).interrupt == t.interrupt,
        ticked_n(t, n).tac == t.tac,
    decreases n,
{
    if n > 0 {
        lemma_period_divides(t.tac, (t.counter + n) as nat);
        law_counter_counts_cycles(t, n);
        law_tima_rate(t, (n - 1) as nat);
    }
}

/// A disabled timer with no reload pending holds TIMA and requests nothing.
pub proof fn law_disabled_timer_holds(t: Timer, n: nat)
    requires
        !enabled(t),
        t.overflow_delay == 0,
    ensures
        ticked_n(t, n) == (Timer { counter: ticked_n(t, n).counter, ..t }),
    decreases n,
{
    if n > 0 {
        law_disabled_timer_holds(t, (n - 1) as nat);
    }
}

/// An overflow leaves TIMA at zero for four cycles; then TMA is reloaded and
/// the interrupt requested.
pub proof fn law_overflow_reloads(t: Timer)
    requires
        enabled(t),
        t.overflow_delay == 0,
        t.tima == 255,
        (t.counter + 1) % period(t.tac) == 0,
    ensures
        forall|n: nat|
            1 <= n <= 4 ==> (#[trigger] ticked_n(t, n)).tima == 0 && ticked_n(t, n).interrupt
                == t.interrupt,
        ticked_n(t, 5).tima == t.tma,
        ticked_n(t, 5).interrupt,
{
    reveal_with_fuel(ticked_n, 6);
    assert forall|n: nat| 1 <= n <= 4 implies (#[trigger] ticked_n(t, n)).tima == 0 && ticked_n(
        t,
        n,
    ).interrupt == t.interrupt && ticked_n(t, n).overflow_delay == 5 - n by {
        lemma_after_overflow(t, n);
    }
    lemma_after_overflow(t, 4);
    lemma_no_boundary_soon(t, 5);
    law_counter_counts_cycles(t, 5);
}

/// Shortly after a period boundary the next one is not reached.
proof fn lemma_no_boundary_soon(t: Timer, n: nat)
    requires
        2 <= n <= 5,
        (t.counter + 1) % period(t.tac) == 0,
    ensures
        (t.counter + n) % 0x1_0000 % period(t.tac) != 0,
{
    lemma_period_divides(t.tac, (t.counter + n) as nat);
    let p = period(t.tac);
    let c = t.counter + 1;
    if p == 1024 {
        assert(c % 1024 == 0);
    } else if p == 16 {
        assert(c % 16 == 0);
    } else if p == 64 {
        assert(c % 64 == 0);
    } else {
        assert(c % 256 == 0);
    }
}

proof fn lemma_after_overflow(t: Timer, n: nat)
    requires
        enabled(t),
        t.overflow_delay == 0,
        t.tima == 255,
        (t.counter + 1) % period(t.tac) == 0,
        1 <= n <= 4,
    ensures
        ticked_n(t, n).tima == 0,
        ticked_n(t, n).overflow_delay == 5 - n,
        ticked_n(t, n).interrupt == t.interrupt,
        ticked_n(t, n).tac == t.tac,
        ticked_n(t, n).tma == t.tma,
    decreases n,
{
    law_counter_counts_cycles(t, n);
    if n == 1 {
        lemma_period_divides(t.tac, (t.counter + 1) as nat);
        assert(ticked_n(t, 0) == t);
    } else {
        lemma_after_overflow(t, (n - 1) as nat);
        lemma_no_boundary_soon(t, n);
    }
}

/// A write to DIV resets the whole counter, so DIV then reads as zero.
pub proof fn law_div_write_resets(t: Timer, val: u8)
    ensures
        timer_written(t, 0xFF04, val).counter == 0,
        timer_read(timer_written(t, 0xFF04, val), 0xFF04) == 0,
{
}

/// TAC and TMA read back what was written, TAC with its unused bits set.
pub proof fn law_timer_registers_read_back(t: Timer, val: u8)
    ensures
        timer_read(timer_written(t, 0xFF06, val), 0xFF06) == val,
        timer_read(timer_written(t, 0xFF07, val), 0xFF07) == 0xF8 + val % 8,
        !t.reload_fired ==> timer_read(timer_written(t, 0xFF05, val), 0xFF05) == val,
{
}

} // verus!
