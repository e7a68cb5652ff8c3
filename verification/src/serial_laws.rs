//! Laws of the serial port over the bits of its registers.

use vstd::prelude::*;

use crate::serial::{
    div_changed, master_edge, master_edges, sc_read, sc_written, SerialDevice, SerialSnapshot,
    SerialView,
};

verus! {

/// Whether a transfer by the own clock runs: bits 7 and 0 of SC.
pub open spec fn running(sc: u8) -> bool {
    sc as int / 128 == 1 && sc as int % 2 == 1
}

/// A falling edge of the clock while a transfer runs: SB moves up by one bit and
/// takes the device's answer below. After the eighth bit the transfer ends and asks
/// for the interrupt; before it the device gets the next bit, the highest of SB. The
/// device has passed 4 ticks in fast mode and 128 in slow mode.
pub proof fn law_bit_is_exchanged<D: SerialDevice>(v: SerialView<D::State>)
    requires
        v.regs.serial_count < 8,
        v.regs.master_clock,
        running(v.regs.sc),
        v.regs.serial_mask == 0x04 || v.regs.serial_mask == 0x80,
    ensures
        ({
            let ticks: u32 = if v.regs.serial_mask == 0x04 {
                4
            } else {
                128
            };
            let d = D::after_tick(v.device, ticks);
            let w = master_edge::<D>(v);
            let sum = 2 * v.regs.sb + (if D::response(d) {
                1int
            } else {
                0int
            });
            &&& w.regs.sb as int == sum % 0x100
            &&& !w.regs.master_clock
            &&& w.output == v.output
            &&& if v.regs.serial_count == 7 {
                &&& w.regs.sc == v.regs.sc - 0x80
                &&& w.regs.serial_count == 0
                &&& w.regs.interrupt
                &&& w.device == D::after_bit_end(d)
            } else {
                &&& w.regs.sc == v.regs.sc
                &&& w.regs.serial_count == v.regs.serial_count + 1
                &&& w.regs.interrupt == v.regs.interrupt
                &&& w.device == D::after_bit_start(
                    D::after_bit_end(d),
                    w.regs.sb as int / 128 == 1,
                )
            }
        }),
{
}

/// A rising edge, and any edge while no transfer runs, only turns the clock and lets
/// the device's time pass.
pub proof fn law_other_edges<D: SerialDevice>(v: SerialView<D::State>)
    requires
        !v.regs.master_clock || !running(v.regs.sc),
    ensures
        master_edge::<D>(v).regs == (SerialSnapshot {
            master_clock: !v.regs.master_clock,
            ..v.regs
        }),
        master_edge::<D>(v).output == v.output,
{
}

/// Starting a transfer: SC takes the value, with its speed bit set on a machine that
/// has no fast mode; the byte in SB is noted, and the device gets its highest bit.
/// Only with that bit, on a machine that has it, is the clock the fast one.
pub proof fn law_transfer_starts<D: SerialDevice>(v: SerialView<D::State>, val: u8)
    requires
        !v.regs.master_clock,
    ensures
        ({
            let w = sc_written::<D>(v, val);
            let fast = v.regs.cgb_mode && val as int / 2 % 2 == 1;
            &&& w.regs.sc == if !v.regs.cgb_mode && val as int / 2 % 2 == 0 {
                (val + 2) as u8
            } else {
                val
            }
            &&& w.regs.serial_mask == if fast {
                0x04int
            } else {
                0x80
            }
            &&& w.regs.serial_count == 0
            &&& w.regs.sb == v.regs.sb
            &&& running(val) ==> w.output == v.output.push(v.regs.sb) && w.device
                == D::after_bit_start(v.device, v.regs.sb >= 0x80)
            &&& !running(val) ==> w.output == v.output && w.device == v.device
        }),
{
    lemma_speed_bit(val);
}

proof fn lemma_speed_bit(val: u8)
    by (bit_vector)
    ensures
        (val & 0x02 != 0) == (val / 2 % 2 == 1),
        val / 2 % 2 == 1 ==> val | 0x02 == val,
        val / 2 % 2 == 0 ==> val | 0x02 == val + 2,
        (val | 0x02) / 128 == val / 128,
        (val | 0x02) % 2 == val % 2,
        (val >= 0x80) == (val / 128 == 1),
        ((val | 0x02) >= 0x80) == (val / 128 == 1),
{
}

/// The clock turns where the divider's bit 7, in fast mode bit 2, falls, and nowhere
/// else.
pub proof fn law_clock_follows_the_divider<D: SerialDevice>(
    v: SerialView<D::State>,
    before: u16,
    after: u16,
)
    requires
        v.regs.serial_mask == 0x04 || v.regs.serial_mask == 0x80,
    ensures
        ({
            let unit: int = if v.regs.serial_mask == 0x04 {
                4
            } else {
                128
            };
            let falls = before as int / unit % 2 == 1 && after as int / unit % 2 == 0;
            div_changed::<D>(v, before, after) == if falls {
                master_edge::<D>(v)
            } else {
                v
            }
        }),
{
    lemma_falling(before, after);
}

proof fn lemma_falling(a: u16, b: u16)
    by (bit_vector)
    ensures
        ((a & !b) & 0x04 != 0) == (a / 4 % 2 == 1 && b / 4 % 2 == 0),
        ((a & !b) & 0x80 != 0) == (a / 128 % 2 == 1 && b / 128 % 2 == 0),
{
}

/// SC reads with its unused bits set; without a fast mode the speed bit is one of
/// them.
pub proof fn law_serial_control_reads(r: SerialSnapshot)
    ensures
        sc_read(r) as int / 128 == r.sc as int / 128,
        sc_read(r) as int % 2 == r.sc as int % 2,
        sc_read(r) as int / 4 % 32 == 31,
        sc_read(r) as int / 2 % 2 == if r.cgb_mode {
            r.sc as int / 2 % 2
        } else {
            1
        },
{
    lemma_unused(r.sc);
}

proof fn lemma_unused(sc: u8)
    by (bit_vector)
    ensures
        (sc | 0x7C) / 128 == sc / 128 && (sc | 0x7E) / 128 == sc / 128,
        (sc | 0x7C) % 2 == sc % 2 && (sc | 0x7E) % 2 == sc % 2,
        (sc | 0x7C) / 4 % 32 == 31 && (sc | 0x7E) / 4 % 32 == 31,
        (sc | 0x7C) / 2 % 2 == sc / 2 % 2 && (sc | 0x7E) / 2 % 2 == 1,
{
}

/// A byte for a byte: over eight whole periods of a running transfer SB takes the
/// eight answers of the device, the first in its highest bit, and the transfer ends.
pub proof fn law_byte_for_a_byte<D: SerialDevice>(v: SerialView<D::State>, n: nat)
    requires
        v.regs.serial_count == 0,
        !v.regs.master_clock,
        running(v.regs.sc),
        n <= 8,
    ensures
        ({
            let w = master_edges::<D>(v, 2 * n);
            &&& w.regs.sb as int == (v.regs.sb * places(n) + answers::<D>(v, n)) % 0x100
            &&& 0 <= answers::<D>(v, n) < places(n)
            &&& !w.regs.master_clock
            &&& w.regs.serial_mask == v.regs.serial_mask
            &&& n < 8 ==> w.regs.sc == v.regs.sc && w.regs.serial_count == n
            &&& n == 8 ==> w.regs.interrupt && w.regs.sc == v.regs.sc - 0x80 && w.regs.sb as int
                == answers::<D>(v, 8)
        }),
    decreases n,
{
    if n > 0 {
        law_byte_for_a_byte::<D>(v, (n - 1) as nat);
        let u = master_edges::<D>(v, (2 * (n - 1)) as nat);
        let b = answers::<D>(v, n) - 2 * answers::<D>(v, (n - 1) as nat);
        lemma_period::<D>(u);
        lemma_two_more::<D>(v, (2 * (n - 1)) as nat);
        lemma_shifted_sum(
            v.regs.sb as int,
            places((n - 1) as nat),
            answers::<D>(v, (n - 1) as nat),
            b,
        );
        if n == 8 {
            lemma_places();
            let a = answers::<D>(v, 8);
            let sb = v.regs.sb as int;
            assert((sb * 0x100 + a) % 0x100 == a);
        }
    }
}

proof fn lemma_two_more<D: SerialDevice>(v: SerialView<D::State>, k: nat)
    ensures
        master_edges::<D>(v, k + 2) == master_edge::<D>(
            master_edge::<D>(master_edges::<D>(v, k)),
        ),
{
    reveal_with_fuel(master_edges, 3);
}

proof fn lemma_period<D: SerialDevice>(u: SerialView<D::State>)
    requires
        u.regs.serial_count < 8,
        !u.regs.master_clock,
        running(u.regs.sc),
    ensures
        ({
            let half = master_edge::<D>(u);
            let w = master_edge::<D>(half);
            let ticks: u32 = if u.regs.serial_mask == 0x04 {
                4
            } else {
                128
            };
            let b: int = if D::response(D::after_tick(half.device, ticks)) {
                1
            } else {
                0
            };
            &&& w.regs.sb as int == (2 * u.regs.sb + b) % 0x100
            &&& !w.regs.master_clock
            &&& w.regs.serial_mask == u.regs.serial_mask
            &&& u.regs.serial_count < 7 ==> w.regs.sc == u.regs.sc && w.regs.serial_count
                == u.regs.serial_count + 1
            &&& u.regs.serial_count == 7 ==> w.regs.sc == u.regs.sc - 0x80 && w.regs.interrupt
        }),
{
}

proof fn lemma_places()
    ensures
        places(8) == 0x100,
{
    reveal_with_fuel(places, 9);
}

proof fn lemma_shifted_sum(sb: int, p: int, a: int, b: int)
    ensures
        (2 * ((sb * p + a) % 0x100) + b) % 0x100 == (sb * (2 * p) + (2 * a + b)) % 0x100,
{
    let x = sb * p + a;
    assert((2 * (x % 0x100) + b) % 0x100 == (2 * x + b) % 0x100);
    assert(sb * (2 * p) == 2 * (sb * p)) by (nonlinear_arith);
}

/// How many numbers `n` bits can tell.
pub open spec fn places(n: nat) -> int
    decreases n,
{
    if n == 0 {
        1
    } else {
        2 * places((n - 1) as nat)
    }
}

/// The device's first `n` answers as a number, the first one highest.
pub open spec fn answers<D: SerialDevice>(v: SerialView<D::State>, n: nat) -> int
    decreases n,
{
    if n == 0 {
        0
    } else {
        let u = master_edge::<D>(master_edges::<D>(v, (2 * (n - 1)) as nat));
        let ticks: u32 = if v.regs.serial_mask == 0x04 {
            4
        } else {
            128
        };
        2 * answers::<D>(v, (n - 1) as nat) + if D::response(D::after_tick(u.device, ticks)) {
            1int
        } else {
            0int
        }
    }
}

} // verus!
