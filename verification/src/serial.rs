//! Serial port with a pluggable device.
//!
//! The serial clock comes from the DIV counter (bit 7 at normal speed, bit 2
//! in the fast mode of a color machine). Each falling edge of that bit toggles
//! a master clock; on its falling half one bit is shifted through SB.

use vstd::arithmetic::div_mod::{lemma_fundamental_div_mod, lemma_fundamental_div_mod_converse};
use vstd::prelude::*;

verus! {

/// A device attached to the serial port (printer, link cable, ...).
///
/// `State` is the device's mathematical state; the spec functions say how each
/// call changes it and which bit the device answers with.
pub trait SerialDevice: Sized {
    type State;

    spec fn state(&self) -> Self::State;

    spec fn response(s: Self::State) -> bool;

    spec fn after_bit_start(s: Self::State, bit: bool) -> Self::State;

    spec fn after_bit_end(s: Self::State) -> Self::State;

    spec fn after_tick(s: Self::State, ticks: u32) -> Self::State;

    /// The Game Boy sends a bit (the top bit of SB).
    fn bit_start(&mut self, bit: bool)
        ensures
            final(self).state() == Self::after_bit_start(old(self).state(), bit),
    ;

    /// The device answers with a bit.
    fn bit_end(&mut self) -> (bit: bool)
        ensures
            bit == Self::response(old(self).state()),
            final(self).state() == Self::after_bit_end(old(self).state()),
    ;

    /// Advance the device's timers.
    fn tick(&mut self, ticks: u32)
        ensures
            final(self).state() == Self::after_tick(old(self).state(), ticks),
    ;
}

/// No cable: every bit reads as 1.
#[derive(Clone, Copy)]
pub struct Disconnected;

impl SerialDevice for Disconnected {
    type State = ();

    open spec fn state(&self) -> () {
        ()
    }

    open spec fn response(s: ()) -> bool {
        true
    }

    open spec fn after_bit_start(s: (), bit: bool) -> () {
        s
    }

    open spec fn after_bit_end(s: ()) -> () {
        s
    }

    open spec fn after_tick(s: (), ticks: u32) -> () {
        s
    }

    fn bit_start(&mut self, bit: bool) {
    }

    fn bit_end(&mut self) -> (bit: bool) {
        true
    }

    fn tick(&mut self, ticks: u32) {
    }
}

/// The serial port.
pub struct Serial<D: SerialDevice> {
    /// SB (0xFF01).
    pub sb: u8,
    /// SC (0xFF02).
    pub sc: u8,
    /// Interrupt request.
    pub interrupt: bool,
    /// Bits shifted so far in the current transfer (0-7).
    pub serial_count: u8,
    pub master_clock: bool,
    /// Counter bit that drives the clock: 0x80, or 0x04 in fast mode.
    pub serial_mask: u16,
    /// Running a color game.
    pub cgb_mode: bool,
    pub device: D,
    /// Bytes whose transfer was started.
    pub serial_output: Vec<u8>,
}

/// Registers and clock of the port. The device and the output log are not
/// part of it.
#[derive(Clone, Copy)]
pub struct SerialSnapshot {
    pub sb: u8,
    pub sc: u8,
    pub interrupt: bool,
    pub serial_count: u8,
    pub master_clock: bool,
    pub serial_mask: u16,
    pub cgb_mode: bool,
}

/// Mathematical state of the port.
pub struct SerialView<S> {
    pub regs: SerialSnapshot,
    pub device: S,
    pub output: Seq<u8>,
}

pub open spec fn serial_view<D: SerialDevice>(s: Serial<D>) -> SerialView<D::State> {
    SerialView {
        regs: SerialSnapshot {
            sb: s.sb,
            sc: s.sc,
            interrupt: s.interrupt,
            serial_count: s.serial_count,
            master_clock: s.master_clock,
            serial_mask: s.serial_mask,
            cgb_mode: s.cgb_mode,
        },
        device: s.device.state(),
        output: s.serial_output@,
    }
}

impl SerialSnapshot {
    /// A transfer has at most seven bits behind it.
    pub open spec fn wf(self) -> bool {
        self.serial_count < 8
    }
}

/// A transfer with the internal clock is running.
pub open spec fn transferring(sc: u8) -> bool {
    sc >= 0x80 && sc % 2 == 1
}

/// Device ticks per clock edge.
pub open spec fn edge_ticks(mask: u16) -> u32 {
    if mask == 0x04 {
        4
    } else {
        128
    }
}

/// SB after one shift.
pub open spec fn shifted(sb: u8, bit: bool) -> u8 {
    (sb % 0x80 * 2 + if bit {
        1int
    } else {
        0int
    }) as u8
}

/// One bit is exchanged. The eighth bit ends the transfer and requests the
/// interrupt; otherwise the device is sent the next bit.
pub open spec fn bit_exchanged<D: SerialDevice>(v: SerialView<D::State>) -> SerialView<D::State> {
    let bit = D::response(v.device);
    let sb = shifted(v.regs.sb, bit);
    let device = D::after_bit_end(v.device);
    if v.regs.serial_count == 7 {
        SerialView {
            regs: SerialSnapshot {
                sb,
                serial_count: 0,
                sc: (v.regs.sc % 0x80) as u8,
                interrupt: true,
                ..v.regs
            },
            device,
            ..v
        }
    } else {
        SerialView {
            regs: SerialSnapshot { sb, serial_count: (v.regs.serial_count + 1) as u8, ..v.regs },
            device: D::after_bit_start(device, sb >= 0x80),
            ..v
        }
    }
}

/// One edge of the master clock.
pub open spec fn master_edge<D: SerialDevice>(v: SerialView<D::State>) -> SerialView<D::State> {
    let v1 = SerialView {
        device: D::after_tick(v.device, edge_ticks(v.regs.serial_mask)),
        regs: SerialSnapshot { master_clock: !v.regs.master_clock, ..v.regs },
        ..v
    };
    if v.regs.master_clock && transferring(v.regs.sc) {
        bit_exchanged::<D>(v1)
    } else {
        v1
    }
}

/// The DIV counter moved from `old_div` to `new_div`.
pub open spec fn div_changed<D: SerialDevice>(
    v: SerialView<D::State>,
    old_div: u16,
    new_div: u16,
) -> SerialView<D::State> {
    if (old_div & !new_div) & v.regs.serial_mask != 0 {
        master_edge::<D>(v)
    } else {
        v
    }
}

/// A write to SC. Without color mode bit 1 is always set. A high master clock
/// gives one more edge, and starting a transfer logs SB and sends the first
/// bit to the device.
pub open spec fn sc_written<D: SerialDevice>(v: SerialView<D::State>, val: u8) -> SerialView<
    D::State,
> {
    let sc = if v.regs.cgb_mode {
        val
    } else {
        val | 0x02
    };
    let v1 = SerialView { regs: SerialSnapshot { serial_count: 0, ..v.regs }, ..v };
    let v2 = if v.regs.master_clock {
        master_edge::<D>(v1)
    } else {
        v1
    };
    let fast = v.regs.cgb_mode && sc & 0x02 != 0;
    let v3 = SerialView {
        regs: SerialSnapshot {
            sc,
            serial_mask: if fast {
                0x04
            } else {
                0x80
            },
            ..v2.regs
        },
        ..v2
    };
    if transferring(sc) {
        SerialView {
            output: v3.output.push(v3.regs.sb),
            device: D::after_bit_start(v3.device, v3.regs.sb >= 0x80),
            ..v3
        }
    } else {
        v3
    }
}

/// Value of SC as read: unused bits read as 1.
pub open spec fn sc_read(r: SerialSnapshot) -> u8 {
    if r.cgb_mode {
        r.sc | 0x7C
    } else {
        r.sc | 0x7E
    }
}

pub open spec fn serial_initial(cgb_mode: bool) -> SerialSnapshot {
    SerialSnapshot {
        sb: 0x00,
        sc: 0x7E,
        interrupt: false,
        serial_count: 0,
        master_clock: false,
        serial_mask: 0x80,
        cgb_mode,
    }
}

impl Serial<Disconnected> {
    /// A port with nothing attached.
    pub fn new(cgb_mode: bool) -> (s: Self)
        ensures
            serial_view(s) == (SerialView {
                regs: serial_initial(cgb_mode),
                device: (),
                output: Seq::<u8>::empty(),
            }),
    {
        Serial::with_device(cgb_mode, Disconnected)
    }
}

impl<D: SerialDevice> Serial<D> {
    /// A port with a device attached.
    pub fn with_device(cgb_mode: bool, device: D) -> (s: Self)
        ensures
            serial_view(s) == (SerialView {
                regs: serial_initial(cgb_mode),
                device: device.state(),
                output: Seq::<u8>::empty(),
            }),
    {
        Serial {
            sb: 0x00,
            sc: 0x7E,
            interrupt: false,
            serial_count: 0,
            master_clock: false,
            serial_mask: 0x80,
            cgb_mode,
            device,
            serial_output: Vec::new(),
        }
    }

    /// Capture registers and clock.
    pub fn take_snapshot(&self) -> (s: SerialSnapshot)
        ensures
            s == serial_view(*self).regs,
    {
        SerialSnapshot {
            sb: self.sb,
            sc: self.sc,
            interrupt: self.interrupt,
            serial_count: self.serial_count,
            master_clock: self.master_clock,
            serial_mask: self.serial_mask,
            cgb_mode: self.cgb_mode,
        }
    }

    /// Restore registers and clock. The device and the output log are
    /// transient and stay as they are.
    pub fn apply_snapshot(&mut self, s: &SerialSnapshot)
        ensures
            serial_view(*final(self)) == restored(serial_view(*old(self)), *s),
    {
        self.sb = s.sb;
        self.sc = s.sc;
        self.interrupt = s.interrupt;
        self.serial_count = s.serial_count;
        self.master_clock = s.master_clock;
        self.serial_mask = s.serial_mask;
        self.cgb_mode = s.cgb_mode;
    }

    /// The DIV counter changed: a falling edge of the selected bit drives the
    /// master clock.
    pub fn step(&mut self, old_div: u16, new_div: u16)
        requires
            serial_view(*old(self)).regs.wf(),
        ensures
            serial_view(*final(self)) == div_changed::<D>(
                serial_view(*old(self)),
                old_div,
                new_div,
            ),
            serial_view(*final(self)).regs.wf(),
    {
        if (old_div & !new_div) & self.serial_mask != 0 {
            self.serial_master_edge();
        }
    }

    fn serial_master_edge(&mut self)
        requires
            serial_view(*old(self)).regs.wf(),
        ensures
            serial_view(*final(self)) == master_edge::<D>(serial_view(*old(self))),
            serial_view(*final(self)).regs.wf(),
    {
        let ticks: u32 = if self.serial_mask == 0x04 {
            4
        } else {
            128
        };
        self.device.tick(ticks);
        self.master_clock = !self.master_clock;
        if !self.master_clock && self.sc >= 0x80 && self.sc % 2 == 1 {
            self.serial_count = self.serial_count + 1;
            if self.serial_count == 8 {
                self.serial_count = 0;
                self.sc = self.sc % 0x80;
                self.interrupt = true;
            }
            let bit: bool = self.device.bit_end();
            let low: u8 = if bit {
                1
            } else {
                0
            };
            self.sb = self.sb % 0x80 * 2 + low;
            if self.serial_count > 0 {
                self.device.bit_start(self.sb >= 0x80);
            }
        }
    }

    /// Write SC.
    pub fn write_sc(&mut self, val: u8)
        requires
            serial_view(*old(self)).regs.wf(),
        ensures
            serial_view(*final(self)) == sc_written::<D>(serial_view(*old(self)), val),
            serial_view(*final(self)).regs.wf(),
    {
        self.serial_count = 0;
        let sc: u8 = if !self.cgb_mode {
            val | 0x02
        } else {
            val
        };
        if self.master_clock {
            self.serial_master_edge();
        }
        self.sc = sc;
        self.serial_mask = if self.cgb_mode && sc & 0x02 != 0 {
            0x04
        } else {
            0x80
        };
        if sc >= 0x80 && sc % 2 == 1 {
            self.serial_output.push(self.sb);
            self.device.bit_start(self.sb >= 0x80);
        }
    }

    /// Read SC.
    pub fn read_sc(&self) -> (v: u8)
        ensures
            v == sc_read(serial_view(*self).regs),
    {
        if self.cgb_mode {
            self.sc | 0x7C
        } else {
            self.sc | 0x7E
        }
    }
}

// ── Laws ──

/// `n` edges of the master clock.
pub open spec fn master_edges<D: SerialDevice>(v: SerialView<D::State>, n: nat) -> SerialView<
    D::State,
>
    decreases n,
{
    if n == 0 {
        v
    } else {
        master_edge::<D>(master_edges::<D>(v, (n - 1) as nat))
    }
}

/// A port with its registers and clock restored. The device and the output log
/// stay as they are.
pub open spec fn restored<S>(v: SerialView<S>, s: SerialSnapshot) -> SerialView<S> {
    SerialView { regs: s, device: v.device, output: v.output }
}

/// Restoring a snapshot that was just taken changes nothing, a snapshot taken
/// after restoring one is the same, and of two restored snapshots the second
/// counts.
pub proof fn law_snapshot_round_trip<S>(v: SerialView<S>, s: SerialSnapshot, t: SerialSnapshot)
    ensures
        restored(v, v.regs) == v,
        restored(v, s).regs == s,
        restored(restored(v, s), t) == restored(v, t),
{
}

/// One whole clock period of a running transfer exchanges one bit.
pub proof fn law_two_edges_exchange_one_bit<D: SerialDevice>(v: SerialView<D::State>)
    requires
        v.regs.wf(),
        !v.regs.master_clock,
        transferring(v.regs.sc),
    ensures
        ({
            let w = master_edges::<D>(v, 2);
            let ticks = edge_ticks(v.regs.serial_mask);
            let d = D::after_tick(D::after_tick(v.device, ticks), ticks);
            &&& w.regs.sb == shifted(v.regs.sb, D::response(d))
            &&& w.regs.serial_count == (v.regs.serial_count + 1) % 8
            &&& w.regs.interrupt == (v.regs.interrupt || v.regs.serial_count == 7)
            &&& transferring(w.regs.sc) == (v.regs.serial_count != 7)
            &&& !w.regs.master_clock
        }),
{
    reveal_with_fuel(master_edges, 3);
}

/// With nothing attached, a transfer started with the clock low ends after
/// sixteen edges with SB full of ones and the interrupt requested.
pub proof fn law_disconnected_transfer_reads_ones(v: SerialView<()>)
    requires
        v.regs.serial_count == 0,
        !v.regs.master_clock,
        transferring(v.regs.sc),
    ensures
        master_edges::<Disconnected>(v, 16).regs.sb == 0xFF,
        master_edges::<Disconnected>(v, 16).regs.interrupt,
        !transferring(master_edges::<Disconnected>(v, 16).regs.sc),
{
    lemma_ones_shift_in(v, 8);
    reveal(low_ones);
}

/// The low `n` bits are ones.
#[verifier::opaque]
pub open spec fn low_ones(sb: u8, n: nat) -> bool {
    if n == 0 {
        true
    } else if n == 1 {
        sb % 2 == 1
    } else if n == 2 {
        sb % 4 == 3
    } else if n == 3 {
        sb % 8 == 7
    } else if n == 4 {
        sb % 16 == 15
    } else if n == 5 {
        sb % 32 == 31
    } else if n == 6 {
        sb % 64 == 63
    } else if n == 7 {
        sb % 128 == 127
    } else {
        sb == 255
    }
}

/// If the remainder of `m` modulo `p` is the largest one, so is that of
/// `2 m + 1` modulo `2 p`.
proof fn lemma_full_remainder_doubles(m: int, p: int)
    requires
        p > 0,
        m % p == p - 1,
    ensures
        (2 * m + 1) % (2 * p) == 2 * p - 1,
{
    lemma_fundamental_div_mod(m, p);
    let k = m / p;
    assert(2 * m + 1 == k * (2 * p) + (2 * p - 1)) by (nonlinear_arith)
        requires
            m == p * k + (p - 1),
    ;
    lemma_fundamental_div_mod_converse(2 * m + 1, 2 * p, k, 2 * p - 1);
}

proof fn lemma_low_ones_shift(sb: u8, n: nat)
    requires
        1 <= n <= 8,
        low_ones(sb, (n - 1) as nat),
    ensures
        low_ones(shifted(sb, true), n),
{
    reveal(low_ones);
    let m = sb as int % 0x80;
    assert(shifted(sb, true) == 2 * m + 1);
    if n == 1 {
        lemma_full_remainder_doubles(m, 1);
    } else if n == 2 {
        lemma_full_remainder_doubles(m, 2);
    } else if n == 3 {
        lemma_full_remainder_doubles(m, 4);
    } else if n == 4 {
        lemma_full_remainder_doubles(m, 8);
    } else if n == 5 {
        lemma_full_remainder_doubles(m, 16);
    } else if n == 6 {
        lemma_full_remainder_doubles(m, 32);
    } else if n == 7 {
        lemma_full_remainder_doubles(m, 64);
    }
}

/// After `n` whole periods the low `n` bits of SB are ones.
proof fn lemma_ones_shift_in(v: SerialView<()>, n: nat)
    requires
        v.regs.serial_count == 0,
        !v.regs.master_clock,
        transferring(v.regs.sc),
        n <= 8,
    ensures
        ({
            let w = master_edges::<Disconnected>(v, 2 * n);
            &&& !w.regs.master_clock
            &&& low_ones(w.regs.sb, n)
            &&& n < 8 ==> transferring(w.regs.sc) && w.regs.serial_count == n
            &&& n == 8 ==> w.regs.interrupt && !transferring(w.regs.sc)
        }),
    decreases n,
{
    if n > 0 {
        lemma_ones_shift_in(v, (n - 1) as nat);
        let u = master_edges::<Disconnected>(v, (2 * (n - 1)) as nat);
        assert(master_edges::<Disconnected>(v, 2 * n) == master_edges::<Disconnected>(u, 2)) by {
            reveal_with_fuel(master_edges, 3);
        }
        law_two_edges_exchange_one_bit::<Disconnected>(u);
        lemma_low_ones_shift(u.regs.sb, n);
    } else {
        reveal(low_ones);
    }
}

} // verus!
