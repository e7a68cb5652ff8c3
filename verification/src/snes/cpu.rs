//! WDC 65C816 CPU core for the SNES side of a Super Game Boy.
//!
//! All 256 opcodes in emulation and native mode, NMI and IRQ handling, and the
//! WAI and STP states. Every method is specified by the machine model of
//! [`cpu_model`](crate::snes::cpu_model).

use vstd::prelude::*;

use crate::snes::address_space::AddressSpace;
use crate::snes::cpu_model::{
    acc_loaded, acc_narrow, acc_stored, accumulate, awake_step, binary_add, binary_subtract,
    block_moved, borrow, branched, carry_exchanged, carry_in, counted, decimal_add16, decimal_add8,
    decimal_subtract16, decimal_subtract8, decoded, digit_adjusted, digit_borrowed, direct,
    effective, executed, fetch_byte, fetch_long, fetch_word, flags_compared, flags_nz, has_flag,
    high_byte, index_narrow, instr_effect, interrupted, irq_active, jump_effect, load, long_addr,
    long_pointer, low_byte, modified_flags, modified_value, modulus, narrowed, nmi_latched,
    operand_narrow, pointer, pull, pull_byte, pull_word, pulled, push, push_byte, push_word, pushed,
    read_effect, read_word, reset_effect, signed, stepped, store, tick, transferred, with_flag,
    with_status, word, wrap16, write_word, Instr, Jump, Machine, Mode, ModifyOp, ReadOp, StackReg,
    StoreOp, Sum, Transfer, FLAG_C, FLAG_D, FLAG_I, FLAG_M, FLAG_N, FLAG_V, FLAG_X, FLAG_Z,
    MAX_STEP_CYCLES,
};

verus! {

/// 65C816 register file, interrupt lines and cycle counter.
#[derive(Clone, Copy)]
pub struct Cpu65816 {
    /// Accumulator (the low byte alone when it is 8 bits wide).
    pub a: u16,
    pub x: u16,
    pub y: u16,
    /// Stack pointer.
    pub s: u16,
    pub pc: u16,
    /// Program bank.
    pub pbr: u8,
    /// Data bank.
    pub dbr: u8,
    /// Direct page.
    pub d: u16,
    /// Processor status.
    pub p: u8,
    /// Emulation mode (on after reset).
    pub emulation: bool,
    /// Halted by WAI until an interrupt.
    pub waiting: bool,
    /// Halted by STP.
    pub stopped: bool,
    pub nmi_pending: bool,
    /// Current NMI line level; its rising edge is detected by `step`.
    pub nmi_line: bool,
    pub nmi_prev: bool,
    pub irq_line: bool,
    /// Master cycles consumed.
    pub cycles: u64,
}

/// The processor and the memory it runs on, as one model state.
pub open spec fn machine<B: AddressSpace>(c: Cpu65816, mem: B::State) -> Machine<B> {
    Machine { cpu: c, mem }
}

fn make_word(lo: u8, hi: u8) -> (r: u16)
    ensures
        r == word(lo, hi),
{
    lo as u16 + 0x100 * (hi as u16)
}

fn make_addr(bank: u8, offset: u16) -> (r: u32)
    ensures
        r == long_addr(bank, offset),
        r <= 0xFF_FFFF,
{
    0x1_0000 * (bank as u32) + offset as u32
}

fn offset_up(v: u16, n: u16) -> (r: u16)
    ensures
        r == wrap16(v + n),
{
    v.wrapping_add(n)
}

fn offset_down(v: u16, n: u16) -> (r: u16)
    ensures
        r == wrap16(v - n),
{
    v.wrapping_sub(n)
}

fn byte_lo(v: u16) -> (r: u8)
    ensures
        r == low_byte(v),
{
    (v % 0x100) as u8
}

fn byte_hi(v: u16) -> (r: u8)
    ensures
        r == high_byte(v),
{
    (v / 0x100) as u8
}

fn test_flag(p: u8, mask: u8) -> (r: bool)
    ensures
        r == has_flag(p, mask),
{
    p & mask != 0
}

fn put_flag(p: u8, mask: u8, on: bool) -> (r: u8)
    ensures
        r == with_flag(p, mask, on),
{
    if on {
        p | mask
    } else {
        p & !mask
    }
}

fn put_nz(p: u8, narrow: bool, v: u16) -> (r: u8)
    ensures
        r == flags_nz(p, narrow, v as int),
{
    let n = if narrow {
        v >= 0x80
    } else {
        v >= 0x8000
    };
    put_flag(put_flag(p, FLAG_N, n), FLAG_Z, v == 0)
}

fn narrow_reg(narrow: bool, v: u16) -> (r: u16)
    ensures
        r == narrowed(narrow, v),
{
    if narrow {
        v % 0x100
    } else {
        v
    }
}

fn store_acc(narrow: bool, a: u16, v: u16) -> (r: u16)
    requires
        narrow ==> v < 0x100,
    ensures
        r == acc_stored(narrow, a, v),
{
    if narrow {
        a / 0x100 * 0x100 + v
    } else {
        v
    }
}

// ── Adder ──

fn signed_operand(narrow: bool, v: u16) -> (r: i32)
    ensures
        r == signed(narrow, v as int),
        -0x8000 <= r <= 0xFFFF,
{
    if narrow {
        if v < 0x80 {
            v as i32
        } else {
            v as i32 - 0x100
        }
    } else if v < 0x8000 {
        v as i32
    } else {
        v as i32 - 0x1_0000
    }
}

fn add_binary(narrow: bool, a: u16, v: u16, c: u16) -> (r: Sum)
    requires
        c <= 1,
        narrow ==> a < 0x100 && v < 0x100,
    ensures
        r == binary_add(narrow, a as int, v as int, c as int),
{
    let total: u32 = a as u32 + v as u32 + c as u32;
    let s: i32 = signed_operand(narrow, a) + signed_operand(narrow, v) + c as i32;
    if narrow {
        Sum {
            value: (total % 0x100) as u16,
            carry: total >= 0x100,
            overflow: !(-0x80 <= s && s < 0x80),
        }
    } else {
        Sum {
            value: (total % 0x1_0000) as u16,
            carry: total >= 0x1_0000,
            overflow: !(-0x8000 <= s && s < 0x8000),
        }
    }
}

fn subtract_binary(narrow: bool, a: u16, v: u16, c: u16) -> (r: Sum)
    requires
        c <= 1,
        narrow ==> a < 0x100 && v < 0x100,
    ensures
        r == binary_subtract(narrow, a as int, v as int, c as int),
{
    let diff: i32 = a as i32 - v as i32 - (1 - c as i32);
    let s: i32 = signed_operand(narrow, a) - signed_operand(narrow, v) - (1 - c as i32);
    if narrow {
        let wrapped: i32 = if diff < 0 {
            diff + 0x100
        } else {
            diff
        };
        assert(wrapped == diff % 0x100);
        Sum {
            value: wrapped as u16,
            carry: diff >= 0,
            overflow: !(-0x80 <= s && s < 0x80),
        }
    } else {
        let wrapped: i32 = if diff < 0 {
            diff + 0x1_0000
        } else {
            diff
        };
        assert(wrapped == diff % 0x1_0000);
        Sum {
            value: wrapped as u16,
            carry: diff >= 0,
            overflow: !(-0x8000 <= s && s < 0x8000),
        }
    }
}

/// Decimal correction of a digit sum.
fn adjust_digit(n: u16) -> (r: u16)
    requires
        n <= 40,
    ensures
        r == digit_adjusted(n as int),
{
    if n > 9 {
        n + 6
    } else {
        n
    }
}

fn add_decimal8(a: u16, v: u16, c: u16) -> (r: Sum)
    requires
        c <= 1,
        a < 0x100,
        v < 0x100,
    ensures
        r == decimal_add8(a as int, v as int, c as int),
        r.value < 0x100,
{
    let lo: u16 = adjust_digit(a % 16 + v % 16 + c);
    let carry: u16 = if lo > 15 {
        1
    } else {
        0
    };
    let hi: u16 = a / 16 + v / 16 + carry;
    let value: u16 = (hi % 16) * 16 + lo % 16;
    Sum {
        value,
        carry: hi > 9,
        overflow: (a >= 0x80) == (v >= 0x80) && (value >= 0x80) != (a >= 0x80),
    }
}

fn add_decimal16(a: u16, v: u16, c: u16) -> (r: Sum)
    requires
        c <= 1,
    ensures
        r == decimal_add16(a as int, v as int, c as int),
{
    let n0: u16 = adjust_digit(a % 16 + v % 16 + c);
    let n1: u16 = adjust_digit((a / 16) % 16 + (v / 16) % 16 + n0 / 16);
    let n2: u16 = adjust_digit((a / 256) % 16 + (v / 256) % 16 + n1 / 16);
    let n3: u16 = adjust_digit((a / 4096) % 16 + (v / 4096) % 16 + n2 / 16);
    let value: u16 = n0 % 16 + 16 * (n1 % 16) + 256 * (n2 % 16) + 4096 * (n3 % 16);
    Sum {
        value,
        carry: n3 / 16 != 0,
        overflow: (a >= 0x8000) == (v >= 0x8000) && (value >= 0x8000) != (a >= 0x8000),
    }
}

/// A digit difference after decimal correction, and its borrow.
fn borrow_digit(n: i32) -> (r: (u16, i32))
    requires
        -17 <= n <= 15,
    ensures
        r.0 == digit_borrowed(n as int),
        r.0 < 16,
        r.1 == borrow(n as int),
        0 <= r.1 <= 1,
{
    if n < 0 {
        let m: i32 = n + 26;
        ((m % 16) as u16, 1)
    } else {
        (n as u16, 0)
    }
}

fn subtract_decimal8(a: u16, v: u16, c: u16) -> (r: Sum)
    requires
        c <= 1,
        a < 0x100,
        v < 0x100,
    ensures
        r == decimal_subtract8(a as int, v as int, c as int),
        r.value < 0x100,
{
    let b = subtract_binary(true, a, v, c);
    let (d0, b0) = borrow_digit((a % 16) as i32 - (v % 16) as i32 - (1 - c as i32));
    let (d1, _b1) = borrow_digit((a / 16) as i32 - (v / 16) as i32 - b0);
    Sum { value: 16 * d1 + d0, carry: b.carry, overflow: b.overflow }
}

fn subtract_decimal16(a: u16, v: u16, c: u16) -> (r: Sum)
    requires
        c <= 1,
    ensures
        r == decimal_subtract16(a as int, v as int, c as int),
{
    let b = subtract_binary(false, a, v, c);
    let (d0, b0) = borrow_digit((a % 16) as i32 - (v % 16) as i32 - (1 - c as i32));
    let (d1, b1) = borrow_digit(((a / 16) % 16) as i32 - ((v / 16) % 16) as i32 - b0);
    let (d2, b2) = borrow_digit(((a / 256) % 16) as i32 - ((v / 256) % 16) as i32 - b1);
    let (d3, b3) = borrow_digit(((a / 4096) % 16) as i32 - ((v / 4096) % 16) as i32 - b2);
    Sum {
        value: d0 + 16 * d1 + 256 * d2 + 4096 * d3,
        carry: b3 == 0,
        overflow: b.overflow,
    }
}

impl Cpu65816 {
    /// A processor in its power-on state.
    pub fn new() -> (c: Self)
        ensures
            c == (Cpu65816 {
                a: 0,
                x: 0,
                y: 0,
                s: 0x01FF,
                pc: 0,
                pbr: 0,
                dbr: 0,
                d: 0,
                p: FLAG_M | FLAG_X | FLAG_I,
                emulation: true,
                waiting: false,
                stopped: false,
                nmi_pending: false,
                nmi_line: false,
                nmi_prev: false,
                irq_line: false,
                cycles: 0,
            }),
    {
        Cpu65816 {
            a: 0,
            x: 0,
            y: 0,
            s: 0x01FF,
            pc: 0,
            pbr: 0,
            dbr: 0,
            d: 0,
            p: FLAG_M | FLAG_X | FLAG_I,
            emulation: true,
            waiting: false,
            stopped: false,
            nmi_pending: false,
            nmi_line: false,
            nmi_prev: false,
            irq_line: false,
            cycles: 0,
        }
    }

    /// Reset the processor; the program counter comes from the reset vector.
    /// The index registers, the accumulator and the interrupt lines keep
    /// their values.
    pub fn reset<B: AddressSpace>(&mut self, bus: &mut B)
        requires
            B::valid(old(bus).state()),
        ensures
            B::valid(final(bus).state()),
            machine::<B>(*final(self), final(bus).state()) == reset_effect(
                machine::<B>(*old(self), old(bus).state()),
            ),
    {
        self.emulation = true;
        self.p = FLAG_M | FLAG_X | FLAG_I;
        self.s = 0x01FF;
        self.pbr = 0;
        self.dbr = 0;
        self.d = 0;
        self.waiting = false;
        self.stopped = false;
        self.pc = self.read16(0xFFFC, bus);
        self.cycles = 0;
    }

    fn a_is_8(&self) -> (r: bool)
        ensures
            r == acc_narrow(*self),
    {
        self.emulation || test_flag(self.p, FLAG_M)
    }

    fn x_is_8(&self) -> (r: bool)
        ensures
            r == index_narrow(*self),
    {
        self.emulation || test_flag(self.p, FLAG_X)
    }

    // ── Stack ──

    fn push8<B: AddressSpace>(&mut self, v: u8, bus: &mut B)
        requires
            B::valid(old(bus).state()),
        ensures
            B::valid(final(bus).state()),
            machine::<B>(*final(self), final(bus).state()) == push_byte(
                machine::<B>(*old(self), old(bus).state()),
                v,
            ),
    {
        bus.write(self.s as u32, v);
        if self.emulation {
            self.s = 0x100 + (self.s % 0x100 + 0xFF) % 0x100;
        } else {
            self.s = offset_down(self.s, 1);
        }
    }

    fn push16<B: AddressSpace>(&mut self, v: u16, bus: &mut B)
        requires
            B::valid(old(bus).state()),
        ensures
            B::valid(final(bus).state()),
            machine::<B>(*final(self), final(bus).state()) == push_word(
                machine::<B>(*old(self), old(bus).state()),
                v,
            ),
    {
        self.push8(byte_hi(v), bus);
        self.push8(byte_lo(v), bus);
    }

    /// Push a register of the given width.
    fn push_reg<B: AddressSpace>(&mut self, narrow: bool, v: u16, bus: &mut B)
        requires
            B::valid(old(bus).state()),
        ensures
            B::valid(final(bus).state()),
            machine::<B>(*final(self), final(bus).state()) == push(
                machine::<B>(*old(self), old(bus).state()),
                narrow,
                v,
            ),
    {
        if narrow {
            self.push8(byte_lo(v), bus);
        } else {
            self.push16(v, bus);
        }
    }

    fn pull8<B: AddressSpace>(&mut self, bus: &mut B) -> (v: u8)
        requires
            B::valid(old(bus).state()),
        ensures
            B::valid(final(bus).state()),
            (v, machine::<B>(*final(self), final(bus).state())) == pull_byte(
                machine::<B>(*old(self), old(bus).state()),
            ),
    {
        if self.emulation {
            self.s = 0x100 + (self.s % 0x100 + 1) % 0x100;
        } else {
            self.s = offset_up(self.s, 1);
        }
        bus.read(self.s as u32)
    }

    fn pull16<B: AddressSpace>(&mut self, bus: &mut B) -> (v: u16)
        requires
            B::valid(old(bus).state()),
        ensures
            B::valid(final(bus).state()),
            (v, machine::<B>(*final(self), final(bus).state())) == pull_word(
                machine::<B>(*old(self), old(bus).state()),
            ),
    {
        let lo: u8 = self.pull8(bus);
        let hi: u8 = self.pull8(bus);
        make_word(lo, hi)
    }

    /// Pull a register of the given width.
    fn pull_reg<B: AddressSpace>(&mut self, narrow: bool, bus: &mut B) -> (v: u16)
        requires
            B::valid(old(bus).state()),
        ensures
            B::valid(final(bus).state()),
            (v, machine::<B>(*final(self), final(bus).state())) == pull(
                machine::<B>(*old(self), old(bus).state()),
                narrow,
            ),
    {
        if narrow {
            self.pull8(bus) as u16
        } else {
            self.pull16(bus)
        }
    }

    // ── Instruction stream ──

    fn fetch8<B: AddressSpace>(&mut self, bus: &mut B) -> (v: u8)
        requires
            B::valid(old(bus).state()),
        ensures
            B::valid(final(bus).state()),
            (v, machine::<B>(*final(self), final(bus).state())) == fetch_byte(
                machine::<B>(*old(self), old(bus).state()),
            ),
    {
        let v: u8 = bus.read(make_addr(self.pbr, self.pc));
        self.pc = offset_up(self.pc, 1);
        v
    }

    fn fetch16<B: AddressSpace>(&mut self, bus: &mut B) -> (v: u16)
        requires
            B::valid(old(bus).state()),
        ensures
            B::valid(final(bus).state()),
            (v, machine::<B>(*final(self), final(bus).state())) == fetch_word(
                machine::<B>(*old(self), old(bus).state()),
            ),
    {
        let lo: u8 = self.fetch8(bus);
        let hi: u8 = self.fetch8(bus);
        make_word(lo, hi)
    }

    fn fetch24<B: AddressSpace>(&mut self, bus: &mut B) -> (v: u32)
        requires
            B::valid(old(bus).state()),
        ensures
            B::valid(final(bus).state()),
            (v, machine::<B>(*final(self), final(bus).state())) == fetch_long(
                machine::<B>(*old(self), old(bus).state()),
            ),
            v <= 0xFF_FFFF,
    {
        let lo: u8 = self.fetch8(bus);
        let mi: u8 = self.fetch8(bus);
        let hi: u8 = self.fetch8(bus);
        make_addr(hi, make_word(lo, mi))
    }

    // ── Data accesses ──

    fn read16<B: AddressSpace>(&self, addr: u32, bus: &mut B) -> (v: u16)
        requires
            B::valid(old(bus).state()),
        ensures
            B::valid(final(bus).state()),
            (v, machine::<B>(*self, final(bus).state())) == read_word(
                machine::<B>(*self, old(bus).state()),
                addr,
            ),
    {
        let lo: u8 = bus.read(addr);
        let hi: u8 = bus.read(addr.wrapping_add(1));
        make_word(lo, hi)
    }

    fn write16<B: AddressSpace>(&self, addr: u32, v: u16, bus: &mut B)
        requires
            B::valid(old(bus).state()),
        ensures
            B::valid(final(bus).state()),
            machine::<B>(*self, final(bus).state()) == write_word(
                machine::<B>(*self, old(bus).state()),
                addr,
                v,
            ),
    {
        bus.write(addr, byte_lo(v));
        bus.write(addr.wrapping_add(1), byte_hi(v));
    }

    /// Load an operand of the given width.
    fn load_operand<B: AddressSpace>(&self, narrow: bool, addr: u32, bus: &mut B) -> (v: u16)
        requires
            B::valid(old(bus).state()),
        ensures
            B::valid(final(bus).state()),
            (v, machine::<B>(*self, final(bus).state())) == load(
                machine::<B>(*self, old(bus).state()),
                narrow,
                addr,
            ),
            narrow ==> v < 0x100,
    {
        if narrow {
            bus.read(addr) as u16
        } else {
            self.read16(addr, bus)
        }
    }

    /// Store an operand of the given width.
    fn store_operand<B: AddressSpace>(&self, narrow: bool, addr: u32, v: u16, bus: &mut B)
        requires
            B::valid(old(bus).state()),
        ensures
            B::valid(final(bus).state()),
            machine::<B>(*self, final(bus).state()) == store(
                machine::<B>(*self, old(bus).state()),
                narrow,
                addr,
                v,
            ),
    {
        if narrow {
            bus.write(addr, byte_lo(v));
        } else {
            self.write16(addr, v, bus);
        }
    }

    // ── Interrupts ──

    /// Set the NMI line level. The edge is detected by `step`.
    pub fn set_nmi(&mut self, level: bool)
        ensures
            *final(self) == (Cpu65816 { nmi_line: level, ..*old(self) }),
    {
        self.nmi_line = level;
    }

    /// Latch a rising edge of the NMI line.
    fn check_nmi(&mut self)
        ensures
            *final(self) == nmi_latched(*old(self)),
    {
        if self.nmi_line && !self.nmi_prev {
            self.nmi_pending = true;
        }
        self.nmi_prev = self.nmi_line;
    }

    fn irq_wanted(&self) -> (r: bool)
        ensures
            r == irq_active(*self),
    {
        self.irq_line && !test_flag(self.p, FLAG_I)
    }

    /// Save the return state and continue at the vector.
    fn enter_interrupt<B: AddressSpace>(&mut self, vector: u32, bus: &mut B)
        requires
            B::valid(old(bus).state()),
        ensures
            B::valid(final(bus).state()),
            machine::<B>(*final(self), final(bus).state()) == interrupted(
                machine::<B>(*old(self), old(bus).state()),
                vector,
            ),
            final(self).cycles == old(self).cycles,
    {
        if !self.emulation {
            self.push8(self.pbr, bus);
        }
        self.push16(self.pc, bus);
        self.push8(self.p, bus);
        self.p = put_flag(put_flag(self.p, FLAG_I, true), FLAG_D, false);
        self.pbr = 0;
        self.pc = self.read16(vector, bus);
    }

    // ── Addressing modes ──

    fn spend(&mut self, n: u64)
        requires
            old(self).cycles + n <= u64::MAX,
        ensures
            *final(self) == tick(*old(self), n as int),
    {
        self.cycles = self.cycles + n;
    }

    /// Offset of a direct page operand.
    fn addr_direct<B: AddressSpace>(&mut self, index: u16, extra: u64, bus: &mut B) -> (r: u16)
        requires
            B::valid(old(bus).state()),
            old(self).cycles + extra + 6 <= u64::MAX,
        ensures
            B::valid(final(bus).state()),
            (r, machine::<B>(*final(self), final(bus).state())) == direct(
                machine::<B>(*old(self), old(bus).state()),
                index,
                extra as int,
            ),
            old(self).cycles <= final(self).cycles <= old(self).cycles + extra + 6,
    {
        let off: u8 = self.fetch8(bus);
        if self.d % 0x100 != 0 {
            self.spend(extra + 6);
        } else {
            self.spend(extra);
        }
        offset_up(offset_up(self.d, off as u16), index)
    }

    /// 16-bit pointer at `ptr`, placed in the data bank.
    fn addr_pointer<B: AddressSpace>(&self, ptr: u16, bus: &mut B) -> (r: u32)
        requires
            B::valid(old(bus).state()),
        ensures
            B::valid(final(bus).state()),
            (r, machine::<B>(*self, final(bus).state())) == pointer(
                machine::<B>(*self, old(bus).state()),
                ptr,
            ),
            r <= 0xFF_FFFF,
    {
        let off: u16 = self.read16(ptr as u32, bus);
        make_addr(self.dbr, off)
    }

    /// 24-bit pointer at `ptr`.
    fn addr_long_pointer<B: AddressSpace>(&self, ptr: u16, bus: &mut B) -> (r: u32)
        requires
            B::valid(old(bus).state()),
        ensures
            B::valid(final(bus).state()),
            (r, machine::<B>(*self, final(bus).state())) == long_pointer(
                machine::<B>(*self, old(bus).state()),
                ptr,
            ),
            r <= 0xFF_FFFF,
    {
        let lo: u8 = bus.read(ptr as u32);
        let mi: u8 = bus.read(ptr as u32 + 1);
        let hi: u8 = bus.read(ptr as u32 + 2);
        make_addr(hi, make_word(lo, mi))
    }

    /// Effective address of a memory operand.
    fn addr_effective<B: AddressSpace>(&mut self, mode: Mode, bus: &mut B) -> (r: u32)
        requires
            B::valid(old(bus).state()),
            old(self).cycles + 18 <= u64::MAX,
        ensures
            B::valid(final(bus).state()),
            (r, machine::<B>(*final(self), final(bus).state())) == effective(
                machine::<B>(*old(self), old(bus).state()),
                mode,
            ),
            old(self).cycles <= final(self).cycles <= old(self).cycles + 18,
    {
        match mode {
            Mode::Dp => self.addr_direct(0, 6, bus) as u32,
            Mode::DpX => self.addr_direct(self.x, 12, bus) as u32,
            Mode::DpY => self.addr_direct(self.y, 12, bus) as u32,
            Mode::DpInd => {
                let ptr: u16 = self.addr_direct(0, 6, bus);
                self.addr_pointer(ptr, bus)
            },
            Mode::DpIndLong => {
                let ptr: u16 = self.addr_direct(0, 6, bus);
                self.addr_long_pointer(ptr, bus)
            },
            Mode::DpXInd => {
                let ptr: u16 = self.addr_direct(self.x, 12, bus);
                self.addr_pointer(ptr, bus)
            },
            Mode::DpIndY => {
                let ptr: u16 = self.addr_direct(0, 6, bus);
                self.addr_pointer(ptr, bus) + self.y as u32
            },
            Mode::DpIndLongY => {
                let ptr: u16 = self.addr_direct(0, 6, bus);
                self.addr_long_pointer(ptr, bus) + self.y as u32
            },
            Mode::Abs => {
                let off: u16 = self.fetch16(bus);
                self.spend(6);
                make_addr(self.dbr, off)
            },
            Mode::AbsX => {
                let off: u16 = self.fetch16(bus);
                self.spend(6);
                make_addr(self.dbr, off) + self.x as u32
            },
            Mode::AbsY => {
                let off: u16 = self.fetch16(bus);
                self.spend(6);
                make_addr(self.dbr, off) + self.y as u32
            },
            Mode::AbsLong => {
                let addr: u32 = self.fetch24(bus);
                self.spend(6);
                addr
            },
            Mode::AbsLongX => {
                let addr: u32 = self.fetch24(bus);
                self.spend(6);
                addr + self.x as u32
            },
            Mode::Sr => {
                let off: u8 = self.fetch8(bus);
                self.spend(12);
                offset_up(self.s, off as u16) as u32
            },
            Mode::SrIndY => {
                let off: u8 = self.fetch8(bus);
                self.spend(12);
                let ptr: u16 = offset_up(self.s, off as u16);
                self.addr_pointer(ptr, bus) + self.y as u32
            },
        }
    }

    // ── Operations on an operand ──

    fn carry_bit(&self) -> (r: u16)
        ensures
            r == carry_in(self.p),
            r <= 1,
    {
        if test_flag(self.p, FLAG_C) {
            1
        } else {
            0
        }
    }

    fn load_acc(&mut self, narrow: bool, v: u16)
        requires
            narrow ==> v < 0x100,
        ensures
            *final(self) == acc_loaded(*old(self), narrow, v),
    {
        self.a = store_acc(narrow, self.a, v);
        self.p = put_nz(self.p, narrow, v);
    }

    fn take_sum(&mut self, narrow: bool, s: Sum)
        requires
            narrow ==> s.value < 0x100,
        ensures
            *final(self) == accumulate(*old(self), narrow, s),
    {
        self.a = store_acc(narrow, self.a, s.value);
        self.p = put_flag(put_flag(self.p, FLAG_C, s.carry), FLAG_V, s.overflow);
        self.p = put_nz(self.p, narrow, s.value);
    }

    fn op_adc(&mut self, narrow: bool, v: u16)
        requires
            narrow == acc_narrow(*old(self)),
            narrow ==> v < 0x100,
        ensures
            *final(self) == read_effect(*old(self), ReadOp::Adc, false, v),
            *final(self) == read_effect(*old(self), ReadOp::Adc, true, v),
    {
        let a: u16 = narrow_reg(narrow, self.a);
        let c: u16 = self.carry_bit();
        let s = if !test_flag(self.p, FLAG_D) {
            add_binary(narrow, a, v, c)
        } else if narrow {
            add_decimal8(a, v, c)
        } else {
            add_decimal16(a, v, c)
        };
        self.take_sum(narrow, s);
    }

    fn op_sbc(&mut self, narrow: bool, v: u16)
        requires
            narrow == acc_narrow(*old(self)),
            narrow ==> v < 0x100,
        ensures
            *final(self) == read_effect(*old(self), ReadOp::Sbc, false, v),
            *final(self) == read_effect(*old(self), ReadOp::Sbc, true, v),
    {
        let a: u16 = narrow_reg(narrow, self.a);
        let c: u16 = self.carry_bit();
        let s = if !test_flag(self.p, FLAG_D) {
            subtract_binary(narrow, a, v, c)
        } else if narrow {
            subtract_decimal8(a, v, c)
        } else {
            subtract_decimal16(a, v, c)
        };
        self.take_sum(narrow, s);
    }

    /// Compare a register value with an operand.
    fn op_compare(&mut self, narrow: bool, a: u16, v: u16)
        requires
            narrow ==> a < 0x100 && v < 0x100,
        ensures
            *final(self) == (Cpu65816 {
                p: flags_compared(old(self).p, narrow, a, v),
                ..*old(self)
            }),
    {
        let diff: u16 = if a >= v {
            a - v
        } else if narrow {
            0x100 - (v - a)
        } else {
            (0x1_0000 - (v - a) as u32) as u16
        };
        assert(diff == (a - v) % modulus(narrow)) by {
            if narrow {
                assert(diff == (a - v) % 0x100);
            } else {
                assert(diff == (a - v) % 0x1_0000);
            }
        }
        self.p = put_nz(put_flag(self.p, FLAG_C, a >= v), narrow, diff);
    }

    fn op_bit(&mut self, narrow: bool, immediate: bool, v: u16)
        requires
            narrow == acc_narrow(*old(self)),
            narrow ==> v < 0x100,
        ensures
            *final(self) == read_effect(*old(self), ReadOp::Bit, immediate, v),
    {
        let z: bool = narrow_reg(narrow, self.a) & v == 0;
        if immediate {
            self.p = put_flag(self.p, FLAG_Z, z);
        } else {
            let n: bool = if narrow {
                v >= 0x80
            } else {
                v >= 0x8000
            };
            let o: bool = if narrow {
                (v / 0x40) % 2 == 1
            } else {
                (v / 0x4000) % 2 == 1
            };
            self.p = put_flag(put_flag(put_flag(self.p, FLAG_N, n), FLAG_V, o), FLAG_Z, z);
        }
    }

    /// Width of a reading operation.
    fn width_of(&self, op: ReadOp) -> (r: bool)
        ensures
            r == operand_narrow(*self, op),
    {
        match op {
            ReadOp::Cpx | ReadOp::Cpy | ReadOp::Ldx | ReadOp::Ldy => self.x_is_8(),
            _ => self.a_is_8(),
        }
    }

    /// Apply a reading operation to its operand.
    fn op_read(&mut self, op: ReadOp, immediate: bool, v: u16)
        requires
            operand_narrow(*old(self), op) ==> v < 0x100,
        ensures
            *final(self) == read_effect(*old(self), op, immediate, v),
    {
        let narrow: bool = self.width_of(op);
        let acc: u16 = narrow_reg(narrow, self.a);
        proof {
            lemma_bits_stay_narrow(acc, v);
        }
        match op {
            ReadOp::Ora => self.load_acc(narrow, acc | v),
            ReadOp::And => self.load_acc(narrow, acc & v),
            ReadOp::Eor => self.load_acc(narrow, acc ^ v),
            ReadOp::Lda => self.load_acc(narrow, v),
            ReadOp::Adc => self.op_adc(narrow, v),
            ReadOp::Sbc => self.op_sbc(narrow, v),
            ReadOp::Compare => self.op_compare(narrow, acc, v),
            ReadOp::Cpx => self.op_compare(narrow, narrow_reg(narrow, self.x), v),
            ReadOp::Cpy => self.op_compare(narrow, narrow_reg(narrow, self.y), v),
            ReadOp::Ldx => {
                self.x = v;
                self.p = put_nz(self.p, narrow, v);
            },
            ReadOp::Ldy => {
                self.y = v;
                self.p = put_nz(self.p, narrow, v);
            },
            ReadOp::Bit => self.op_bit(narrow, immediate, v),
        }
    }

    /// Value of a modifying operation.
    fn op_modify(&self, op: ModifyOp, v: u16) -> (r: u16)
        requires
            acc_narrow(*self) ==> v < 0x100,
        ensures
            r == modified_value(*self, op, v),
            acc_narrow(*self) ==> r < 0x100,
    {
        let narrow: bool = self.a_is_8();
        let acc: u16 = narrow_reg(narrow, self.a);
        let c: u16 = self.carry_bit();
        proof {
            lemma_bits_stay_narrow(acc, v);
            lemma_bits_stay_narrow(v, !acc);
        }
        assert((v - 1) % 0x1_0000 == (v + 0xFFFF) % 0x1_0000);
        assert((v - 1) % 0x100 == (v + 0xFF) % 0x100);
        if narrow {
            match op {
                ModifyOp::Inc => (v + 1) % 0x100,
                ModifyOp::Dec => (v + 0xFF) % 0x100,
                ModifyOp::Asl => (2 * v) % 0x100,
                ModifyOp::Lsr => v / 2,
                ModifyOp::Rol => (2 * v) % 0x100 + c,
                ModifyOp::Ror => v / 2 + c * 0x80,
                ModifyOp::Trb => v & !acc,
                ModifyOp::Tsb => v | acc,
            }
        } else {
            let w: u32 = v as u32;
            match op {
                ModifyOp::Inc => ((w + 1) % 0x1_0000) as u16,
                ModifyOp::Dec => ((w + 0xFFFF) % 0x1_0000) as u16,
                ModifyOp::Asl => ((2 * w) % 0x1_0000) as u16,
                ModifyOp::Lsr => v / 2,
                ModifyOp::Rol => ((2 * w) % 0x1_0000) as u16 + c,
                ModifyOp::Ror => v / 2 + c * 0x8000,
                ModifyOp::Trb => v & !acc,
                ModifyOp::Tsb => v | acc,
            }
        }
    }

    /// Flags of a modifying operation with operand `v` and value `r`.
    fn op_modify_flags(&self, op: ModifyOp, v: u16, r: u16) -> (p: u8)
        requires
            r == modified_value(*self, op, v),
        ensures
            p == modified_flags(*self, op, v),
    {
        let narrow: bool = self.a_is_8();
        match op {
            ModifyOp::Inc | ModifyOp::Dec => put_nz(self.p, narrow, r),
            ModifyOp::Asl | ModifyOp::Rol => {
                let top: bool = if narrow {
                    v >= 0x80
                } else {
                    v >= 0x8000
                };
                put_nz(put_flag(self.p, FLAG_C, top), narrow, r)
            },
            ModifyOp::Lsr | ModifyOp::Ror => put_nz(
                put_flag(self.p, FLAG_C, v % 2 == 1),
                narrow,
                r,
            ),
            ModifyOp::Trb | ModifyOp::Tsb => {
                put_flag(self.p, FLAG_Z, v & narrow_reg(narrow, self.a) == 0)
            },
        }
    }

    // ── Instructions ──

    fn op_transfer(&mut self, t: Transfer)
        ensures
            *final(self) == transferred(*old(self), t),
    {
        let an: bool = self.a_is_8();
        let xn: bool = self.x_is_8();
        match t {
            Transfer::Tax => {
                self.x = narrow_reg(xn, self.a);
                self.p = put_nz(self.p, xn, self.x);
            },
            Transfer::Tay => {
                self.y = narrow_reg(xn, self.a);
                self.p = put_nz(self.p, xn, self.y);
            },
            Transfer::Txa => self.load_acc(an, narrow_reg(an, self.x)),
            Transfer::Tya => self.load_acc(an, narrow_reg(an, self.y)),
            Transfer::Tsx => {
                self.x = narrow_reg(xn, self.s);
                self.p = put_nz(self.p, xn, self.x);
            },
            Transfer::Txs => {
                if self.emulation {
                    self.s = 0x100 + self.x % 0x100;
                } else {
                    self.s = self.x;
                }
            },
            Transfer::Txy => {
                self.y = narrow_reg(xn, self.x);
                self.p = put_nz(self.p, xn, self.y);
            },
            Transfer::Tyx => {
                self.x = narrow_reg(xn, self.y);
                self.p = put_nz(self.p, xn, self.x);
            },
            Transfer::Tcd => {
                self.d = self.a;
                self.p = put_nz(self.p, false, self.d);
            },
            Transfer::Tdc => self.load_acc(false, self.d),
            Transfer::Tcs => {
                if self.emulation {
                    self.s = 0x100 + self.a % 0x100;
                } else {
                    self.s = self.a;
                }
            },
            Transfer::Tsc => self.load_acc(false, self.s),
        }
    }

    /// Load the status register.
    fn set_p(&mut self, val: u8)
        ensures
            *final(self) == with_status(*old(self), val),
    {
        self.p = val;
        if self.emulation {
            self.p = val | (FLAG_M | FLAG_X);
        }
        if test_flag(self.p, FLAG_X) {
            self.x = self.x % 0x100;
            self.y = self.y % 0x100;
        }
    }

    fn op_push<B: AddressSpace>(&mut self, r: StackReg, bus: &mut B)
        requires
            B::valid(old(bus).state()),
            old(self).cycles + 6 <= u64::MAX,
        ensures
            B::valid(final(bus).state()),
            machine::<B>(*final(self), final(bus).state()) == pushed(
                machine::<B>(*old(self), old(bus).state()),
                r,
            ),
            final(self).cycles == old(self).cycles + 6,
    {
        match r {
            StackReg::A => self.push_reg(self.a_is_8(), self.a, bus),
            StackReg::X => self.push_reg(self.x_is_8(), self.x, bus),
            StackReg::Y => self.push_reg(self.x_is_8(), self.y, bus),
            StackReg::P => self.push8(self.p, bus),
            StackReg::Dbr => self.push8(self.dbr, bus),
            StackReg::D => self.push16(self.d, bus),
            StackReg::Pbr => self.push8(self.pbr, bus),
        }
        self.spend(6);
    }

    fn op_pull<B: AddressSpace>(&mut self, r: StackReg, bus: &mut B)
        requires
            B::valid(old(bus).state()),
            old(self).cycles + 12 <= u64::MAX,
        ensures
            B::valid(final(bus).state()),
            machine::<B>(*final(self), final(bus).state()) == pulled(
                machine::<B>(*old(self), old(bus).state()),
                r,
            ),
            final(self).cycles == old(self).cycles + 12,
    {
        let an: bool = self.a_is_8();
        let xn: bool = self.x_is_8();
        match r {
            StackReg::A => {
                let v: u16 = self.pull_reg(an, bus);
                self.load_acc(an, v);
            },
            StackReg::X => {
                self.x = self.pull_reg(xn, bus);
                self.p = put_nz(self.p, xn, self.x);
            },
            StackReg::Y => {
                self.y = self.pull_reg(xn, bus);
                self.p = put_nz(self.p, xn, self.y);
            },
            StackReg::P => {
                let v: u8 = self.pull8(bus);
                self.set_p(v);
            },
            StackReg::Dbr => {
                self.dbr = self.pull8(bus);
                self.p = put_nz(self.p, true, self.dbr as u16);
            },
            StackReg::D => {
                self.d = self.pull16(bus);
                self.p = put_nz(self.p, false, self.d);
            },
            StackReg::Pbr => {},
        }
        self.spend(12);
    }

    /// Jumps that leave no return address.
    fn op_goto<B: AddressSpace>(&mut self, j: Jump, bus: &mut B)
        requires
            B::valid(old(bus).state()),
            old(self).cycles + 18 <= u64::MAX,
            j is Abs || j is AbsInd || j is AbsXInd || j is Long,
        ensures
            B::valid(final(bus).state()),
            machine::<B>(*final(self), final(bus).state()) == jump_effect(
                machine::<B>(*old(self), old(bus).state()),
                j,
            ),
            old(self).cycles <= final(self).cycles <= old(self).cycles + 18,
    {
        match j {
            Jump::Abs => {
                self.pc = self.fetch16(bus);
            },
            Jump::AbsInd => {
                let ptr: u16 = self.fetch16(bus);
                self.pc = self.read16(ptr as u32, bus);
            },
            Jump::AbsXInd => {
                let base: u16 = self.fetch16(bus);
                let ptr: u32 = make_addr(self.pbr, offset_up(base, self.x));
                self.pc = self.read16(ptr, bus);
            },
            Jump::Long => {
                let lo: u16 = self.fetch16(bus);
                let hi: u8 = self.fetch8(bus);
                self.pbr = hi;
                self.pc = lo;
            },
            _ => {},
        }
    }

    /// Jump through a 24-bit pointer.
    fn op_goto_long_indirect<B: AddressSpace>(&mut self, j: Jump, bus: &mut B)
        requires
            B::valid(old(bus).state()),
            old(self).cycles + 18 <= u64::MAX,
            j is LongInd,
        ensures
            B::valid(final(bus).state()),
            machine::<B>(*final(self), final(bus).state()) == jump_effect(
                machine::<B>(*old(self), old(bus).state()),
                j,
            ),
            old(self).cycles <= final(self).cycles <= old(self).cycles + 18,
    {
        match j {
            Jump::LongInd => {
                let ptr: u32 = self.fetch16(bus) as u32;
                let lo: u8 = bus.read(ptr);
                let mi: u8 = bus.read(ptr + 1);
                let hi: u8 = bus.read(ptr + 2);
                self.pc = make_word(lo, mi);
                self.pbr = hi;
            },
            _ => {},
        }
    }

    /// Jumps that push a return address in the same bank.
    fn op_call<B: AddressSpace>(&mut self, j: Jump, bus: &mut B)
        requires
            B::valid(old(bus).state()),
            old(self).cycles + 18 <= u64::MAX,
            j is Call || j is CallXInd,
        ensures
            B::valid(final(bus).state()),
            machine::<B>(*final(self), final(bus).state()) == jump_effect(
                machine::<B>(*old(self), old(bus).state()),
                j,
            ),
            old(self).cycles <= final(self).cycles <= old(self).cycles + 18,
    {
        match j {
            Jump::Call => {
                let addr: u16 = self.fetch16(bus);
                self.push16(offset_down(self.pc, 1), bus);
                self.pc = addr;
                self.spend(6);
            },
            Jump::CallXInd => {
                let base: u16 = self.fetch16(bus);
                self.push16(offset_down(self.pc, 1), bus);
                let ptr: u32 = make_addr(self.pbr, offset_up(base, self.x));
                self.pc = self.read16(ptr, bus);
                self.spend(6);
            },
            _ => {},
        }
    }

    /// Jump that pushes a full return address.
    fn op_call_long<B: AddressSpace>(&mut self, j: Jump, bus: &mut B)
        requires
            B::valid(old(bus).state()),
            old(self).cycles + 18 <= u64::MAX,
            j is CallLong,
        ensures
            B::valid(final(bus).state()),
            machine::<B>(*final(self), final(bus).state()) == jump_effect(
                machine::<B>(*old(self), old(bus).state()),
                j,
            ),
            old(self).cycles <= final(self).cycles <= old(self).cycles + 18,
    {
        match j {
            Jump::CallLong => {
                let lo: u16 = self.fetch16(bus);
                let hi: u8 = self.fetch8(bus);
                self.push8(self.pbr, bus);
                self.push16(offset_down(self.pc, 1), bus);
                self.pbr = hi;
                self.pc = lo;
                self.spend(6);
            },
            _ => {},
        }
    }

    /// Returns.
    fn op_return<B: AddressSpace>(&mut self, j: Jump, bus: &mut B)
        requires
            B::valid(old(bus).state()),
            old(self).cycles + 18 <= u64::MAX,
            j is Return || j is ReturnLong,
        ensures
            B::valid(final(bus).state()),
            machine::<B>(*final(self), final(bus).state()) == jump_effect(
                machine::<B>(*old(self), old(bus).state()),
                j,
            ),
            old(self).cycles <= final(self).cycles <= old(self).cycles + 18,
    {
        match j {
            Jump::Return => {
                self.pc = offset_up(self.pull16(bus), 1);
                self.spend(18);
            },
            Jump::ReturnLong => {
                self.pc = offset_up(self.pull16(bus), 1);
                self.pbr = self.pull8(bus);
                self.spend(12);
            },
            _ => {},
        }
    }

    /// Return from an interrupt.
    fn op_return_interrupt<B: AddressSpace>(&mut self, j: Jump, bus: &mut B)
        requires
            B::valid(old(bus).state()),
            old(self).cycles + 18 <= u64::MAX,
            j is ReturnInterrupt,
        ensures
            B::valid(final(bus).state()),
            machine::<B>(*final(self), final(bus).state()) == jump_effect(
                machine::<B>(*old(self), old(bus).state()),
                j,
            ),
            old(self).cycles <= final(self).cycles <= old(self).cycles + 18,
    {
        match j {
            Jump::ReturnInterrupt => {
                let p: u8 = self.pull8(bus);
                self.set_p(p);
                self.pc = self.pull16(bus);
                if !self.emulation {
                    self.pbr = self.pull8(bus);
                }
                self.spend(12);
            },
            _ => {},
        }
    }

    fn op_jump<B: AddressSpace>(&mut self, j: Jump, bus: &mut B)
        requires
            B::valid(old(bus).state()),
            old(self).cycles + 18 <= u64::MAX,
        ensures
            B::valid(final(bus).state()),
            machine::<B>(*final(self), final(bus).state()) == jump_effect(
                machine::<B>(*old(self), old(bus).state()),
                j,
            ),
            old(self).cycles <= final(self).cycles <= old(self).cycles + 18,
    {
        match j {
            Jump::Abs | Jump::AbsInd | Jump::AbsXInd | Jump::Long => self.op_goto(j, bus),
            Jump::LongInd => self.op_goto_long_indirect(j, bus),
            Jump::Call | Jump::CallXInd => self.op_call(j, bus),
            Jump::CallLong => self.op_call_long(j, bus),
            Jump::Return | Jump::ReturnLong => self.op_return(j, bus),
            Jump::ReturnInterrupt => self.op_return_interrupt(j, bus),
        }
    }

    fn branch<B: AddressSpace>(&mut self, taken: bool, bus: &mut B)
        requires
            B::valid(old(bus).state()),
            old(self).cycles + 12 <= u64::MAX,
        ensures
            B::valid(final(bus).state()),
            machine::<B>(*final(self), final(bus).state()) == branched(
                machine::<B>(*old(self), old(bus).state()),
                taken,
            ),
            old(self).cycles <= final(self).cycles <= old(self).cycles + 12,
    {
        let off: u8 = self.fetch8(bus);
        if taken {
            let ext: u16 = if off < 0x80 {
                off as u16
            } else {
                off as u16 + 0xFF00
            };
            self.pc = offset_up(self.pc, ext);
            self.spend(12);
        } else {
            self.spend(6);
        }
    }

    fn count_reg(narrow: bool, v: u16, up: bool) -> (r: u16)
        ensures
            r == counted(narrow, v, up),
    {
        let w: u32 = narrow_reg(narrow, v) as u32;
        if narrow {
            assert((w - 1) % 0x100 == (w + 0xFF) % 0x100);
            if up {
                ((w + 1) % 0x100) as u16
            } else {
                ((w + 0xFF) % 0x100) as u16
            }
        } else {
            assert((w - 1) % 0x1_0000 == (w + 0xFFFF) % 0x1_0000);
            if up {
                ((w + 1) % 0x1_0000) as u16
            } else {
                ((w + 0xFFFF) % 0x1_0000) as u16
            }
        }
    }

    fn op_move<B: AddressSpace>(&mut self, down: bool, bus: &mut B)
        requires
            B::valid(old(bus).state()),
            old(self).cycles + 6 <= u64::MAX,
        ensures
            B::valid(final(bus).state()),
            machine::<B>(*final(self), final(bus).state()) == block_moved(
                machine::<B>(*old(self), old(bus).state()),
                down,
            ),
            final(self).cycles == old(self).cycles + 6,
    {
        let dst_bank: u8 = self.fetch8(bus);
        let src_bank: u8 = self.fetch8(bus);
        self.dbr = dst_bank;
        let src: u32 = make_addr(src_bank, self.x);
        let dst: u32 = make_addr(dst_bank, self.y);
        let v: u8 = bus.read(src);
        bus.write(dst, v);
        let n: bool = self.x_is_8();
        self.x = Self::count_reg(n, self.x, !down);
        self.y = Self::count_reg(n, self.y, !down);
        self.a = offset_down(self.a, 1);
        if self.a != 0xFFFF {
            self.pc = offset_down(self.pc, 3);
        }
        self.spend(6);
    }

    fn op_exchange_carry(&mut self)
        ensures
            *final(self) == carry_exchanged(*old(self)),
    {
        let old_c: bool = test_flag(self.p, FLAG_C);
        self.p = put_flag(self.p, FLAG_C, self.emulation);
        self.emulation = old_c;
        if old_c {
            self.p = self.p | (FLAG_M | FLAG_X);
            self.x = self.x % 0x100;
            self.y = self.y % 0x100;
            self.s = 0x100 + self.s % 0x100;
        }
    }

    /// Operations that read an operand in memory.
    fn run_read<B: AddressSpace>(&mut self, i: Instr, bus: &mut B)
        requires
            B::valid(old(bus).state()),
            old(self).cycles + 24 <= u64::MAX,
            i is Read,
        ensures
            B::valid(final(bus).state()),
            machine::<B>(*final(self), final(bus).state()) == instr_effect(
                machine::<B>(*old(self), old(bus).state()),
                i,
            ),
            old(self).cycles <= final(self).cycles <= old(self).cycles + 24,
    {
        match i {
            Instr::Read(op, mode) => {
                let addr: u32 = self.addr_effective(mode, bus);
                let v: u16 = self.load_operand(self.width_of(op), addr, bus);
                self.op_read(op, false, v);
            },
            _ => {},
        }
    }

    /// Operations with an operand in the instruction stream.
    fn run_immediate<B: AddressSpace>(&mut self, i: Instr, bus: &mut B)
        requires
            B::valid(old(bus).state()),
            old(self).cycles + 24 <= u64::MAX,
            i is Immediate,
        ensures
            B::valid(final(bus).state()),
            machine::<B>(*final(self), final(bus).state()) == instr_effect(
                machine::<B>(*old(self), old(bus).state()),
                i,
            ),
            old(self).cycles <= final(self).cycles <= old(self).cycles + 24,
    {
        match i {
            Instr::Immediate(op) => {
                if self.width_of(op) {
                    let v: u8 = self.fetch8(bus);
                    self.op_read(op, true, v as u16);
                } else {
                    let v: u16 = self.fetch16(bus);
                    self.op_read(op, true, v);
                    self.spend(6);
                }
            },
            _ => {},
        }
    }

    /// Stores.
    fn run_store<B: AddressSpace>(&mut self, i: Instr, bus: &mut B)
        requires
            B::valid(old(bus).state()),
            old(self).cycles + 24 <= u64::MAX,
            i is Store,
        ensures
            B::valid(final(bus).state()),
            machine::<B>(*final(self), final(bus).state()) == instr_effect(
                machine::<B>(*old(self), old(bus).state()),
                i,
            ),
            old(self).cycles <= final(self).cycles <= old(self).cycles + 24,
    {
        match i {
            Instr::Store(op, mode) => {
                let addr: u32 = self.addr_effective(mode, bus);
                match op {
                    StoreOp::Sta => self.store_operand(self.a_is_8(), addr, self.a, bus),
                    StoreOp::Stx => self.store_operand(self.x_is_8(), addr, self.x, bus),
                    StoreOp::Sty => self.store_operand(self.x_is_8(), addr, self.y, bus),
                    StoreOp::Stz => self.store_operand(self.a_is_8(), addr, 0, bus),
                }
            },
            _ => {},
        }
    }

    /// Operations that write their operand back.
    fn run_modify<B: AddressSpace>(&mut self, i: Instr, bus: &mut B)
        requires
            B::valid(old(bus).state()),
            old(self).cycles + 24 <= u64::MAX,
            i is Modify,
        ensures
            B::valid(final(bus).state()),
            machine::<B>(*final(self), final(bus).state()) == instr_effect(
                machine::<B>(*old(self), old(bus).state()),
                i,
            ),
            old(self).cycles <= final(self).cycles <= old(self).cycles + 24,
    {
        match i {
            Instr::Modify(op, mode) => {
                let addr: u32 = self.addr_effective(mode, bus);
                let narrow: bool = self.a_is_8();
                let v: u16 = self.load_operand(narrow, addr, bus);
                let r: u16 = self.op_modify(op, v);
                self.store_operand(narrow, addr, r, bus);
                self.p = self.op_modify_flags(op, v, r);
                self.spend(6);
            },
            _ => {},
        }
    }

    /// Operations on the accumulator alone.
    fn run_modify_acc<B: AddressSpace>(&mut self, i: Instr, bus: &mut B)
        requires
            B::valid(old(bus).state()),
            old(self).cycles + 24 <= u64::MAX,
            i is ModifyAcc,
        ensures
            B::valid(final(bus).state()),
            machine::<B>(*final(self), final(bus).state()) == instr_effect(
                machine::<B>(*old(self), old(bus).state()),
                i,
            ),
            old(self).cycles <= final(self).cycles <= old(self).cycles + 24,
    {
        match i {
            Instr::ModifyAcc(op) => {
                let narrow: bool = self.a_is_8();
                let v: u16 = narrow_reg(narrow, self.a);
                let r: u16 = self.op_modify(op, v);
                self.p = self.op_modify_flags(op, v, r);
                self.a = store_acc(narrow, self.a, r);
                self.spend(6);
            },
            _ => {},
        }
    }

    /// Branches and jumps.
    fn run_branch<B: AddressSpace>(&mut self, i: Instr, bus: &mut B)
        requires
            B::valid(old(bus).state()),
            old(self).cycles + 24 <= u64::MAX,
            i is Branch || i is BranchAlways || i is BranchLong || i is Jump,
        ensures
            B::valid(final(bus).state()),
            machine::<B>(*final(self), final(bus).state()) == instr_effect(
                machine::<B>(*old(self), old(bus).state()),
                i,
            ),
            old(self).cycles <= final(self).cycles <= old(self).cycles + 24,
    {
        match i {
            Instr::Branch(mask, set) => self.branch(test_flag(self.p, mask) == set, bus),
            Instr::BranchAlways => self.branch(true, bus),
            Instr::BranchLong => {
                let off: u16 = self.fetch16(bus);
                self.pc = offset_up(self.pc, off);
                self.spend(6);
            },
            Instr::Jump(j) => self.op_jump(j, bus),
            _ => {},
        }
    }

    /// Operations on registers and flags.
    fn run_register<B: AddressSpace>(&mut self, i: Instr, bus: &mut B)
        requires
            B::valid(old(bus).state()),
            old(self).cycles + 24 <= u64::MAX,
            i is Flag || i is Transfer || i is Count || i is Mask || i is ExchangeCarry || i is ExchangeBytes,
        ensures
            B::valid(final(bus).state()),
            machine::<B>(*final(self), final(bus).state()) == instr_effect(
                machine::<B>(*old(self), old(bus).state()),
                i,
            ),
            old(self).cycles <= final(self).cycles <= old(self).cycles + 24,
    {
        match i {
            Instr::Flag(mask, on) => {
                self.p = put_flag(self.p, mask, on);
                self.spend(6);
            },
            Instr::Transfer(t) => {
                self.op_transfer(t);
                self.spend(6);
            },
            Instr::Count(is_x, up) => {
                let n: bool = self.x_is_8();
                if is_x {
                    self.x = Self::count_reg(n, self.x, up);
                    self.p = put_nz(self.p, n, self.x);
                } else {
                    self.y = Self::count_reg(n, self.y, up);
                    self.p = put_nz(self.p, n, self.y);
                }
                self.spend(6);
            },
            Instr::Mask(set) => {
                let mask: u8 = self.fetch8(bus);
                self.set_p(put_flag(self.p, mask, set));
                self.spend(6);
            },
            Instr::ExchangeCarry => {
                self.op_exchange_carry();
                self.spend(6);
            },
            Instr::ExchangeBytes => {
                let lo: u8 = byte_lo(self.a);
                let hi: u8 = byte_hi(self.a);
                self.a = make_word(hi, lo);
                self.p = put_nz(self.p, true, hi as u16);
                self.spend(6);
            },
            _ => {},
        }
    }

    /// Pushes and pulls.
    fn run_stack<B: AddressSpace>(&mut self, i: Instr, bus: &mut B)
        requires
            B::valid(old(bus).state()),
            old(self).cycles + 24 <= u64::MAX,
            i is Push || i is Pull,
        ensures
            B::valid(final(bus).state()),
            machine::<B>(*final(self), final(bus).state()) == instr_effect(
                machine::<B>(*old(self), old(bus).state()),
                i,
            ),
            old(self).cycles <= final(self).cycles <= old(self).cycles + 24,
    {
        match i {
            Instr::Push(r) => self.op_push(r, bus),
            Instr::Pull(r) => self.op_pull(r, bus),
            _ => {},
        }
    }

    /// Pushes of a word from the instruction stream or memory.
    fn run_push_effective<B: AddressSpace>(&mut self, i: Instr, bus: &mut B)
        requires
            B::valid(old(bus).state()),
            i is PushAbs || i is PushInd || i is PushRel,
        ensures
            B::valid(final(bus).state()),
            machine::<B>(*final(self), final(bus).state()) == instr_effect(
                machine::<B>(*old(self), old(bus).state()),
                i,
            ),
            old(self).cycles == final(self).cycles,
    {
        match i {
            Instr::PushAbs => {
                let v: u16 = self.fetch16(bus);
                self.push16(v, bus);
            },
            Instr::PushInd => {
                let off: u8 = self.fetch8(bus);
                let v: u16 = self.read16(offset_up(self.d, off as u16) as u32, bus);
                self.push16(v, bus);
            },
            Instr::PushRel => {
                let off: u16 = self.fetch16(bus);
                self.push16(offset_up(self.pc, off), bus);
            },
            _ => {},
        }
    }

    /// Halting, interrupting and moving blocks.
    fn run_control<B: AddressSpace>(&mut self, i: Instr, bus: &mut B)
        requires
            B::valid(old(bus).state()),
            old(self).cycles + 24 <= u64::MAX,
            i is Move || i is Nop || i is Wait || i is Stop || i is Wdm || i is Break || i is Coprocessor,
        ensures
            B::valid(final(bus).state()),
            machine::<B>(*final(self), final(bus).state()) == instr_effect(
                machine::<B>(*old(self), old(bus).state()),
                i,
            ),
            old(self).cycles <= final(self).cycles <= old(self).cycles + 24,
    {
        match i {
            Instr::Move(down) => self.op_move(down, bus),
            Instr::Nop => self.spend(6),
            Instr::Wait => {
                self.waiting = true;
            },
            Instr::Stop => {
                self.stopped = true;
            },
            Instr::Wdm => {
                let _signature: u8 = self.fetch8(bus);
            },
            Instr::Break => {
                let _signature: u8 = self.fetch8(bus);
                let vector: u32 = if self.emulation {
                    0xFFFE
                } else {
                    0xFFE6
                };
                self.enter_interrupt(vector, bus);
            },
            Instr::Coprocessor => {
                let _signature: u8 = self.fetch8(bus);
                let vector: u32 = if self.emulation {
                    0xFFF4
                } else {
                    0xFFE4
                };
                self.enter_interrupt(vector, bus);
            },
            _ => {},
        }
    }

    /// Execute a decoded instruction.
    fn run_instr<B: AddressSpace>(&mut self, i: Instr, bus: &mut B)
        requires
            B::valid(old(bus).state()),
            old(self).cycles + 24 <= u64::MAX,
        ensures
            B::valid(final(bus).state()),
            machine::<B>(*final(self), final(bus).state()) == instr_effect(
                machine::<B>(*old(self), old(bus).state()),
                i,
            ),
            old(self).cycles <= final(self).cycles <= old(self).cycles + 24,
    {
        match i {
            Instr::Read(_, _) => self.run_read(i, bus),
            Instr::Immediate(_) => self.run_immediate(i, bus),
            Instr::Store(_, _) => self.run_store(i, bus),
            Instr::Modify(_, _) => self.run_modify(i, bus),
            Instr::ModifyAcc(_) => self.run_modify_acc(i, bus),
            Instr::Branch(_, _) | Instr::BranchAlways | Instr::BranchLong | Instr::Jump(_) => self.run_branch(i, bus),
            Instr::Flag(_, _) | Instr::Transfer(_) | Instr::Count(_, _) | Instr::Mask(_) | Instr::ExchangeCarry | Instr::ExchangeBytes => self.run_register(i, bus),
            Instr::Push(_) | Instr::Pull(_) => self.run_stack(i, bus),
            Instr::PushAbs | Instr::PushInd | Instr::PushRel => self.run_push_effective(i, bus),
            Instr::Move(_) | Instr::Nop | Instr::Wait | Instr::Stop | Instr::Wdm | Instr::Break | Instr::Coprocessor => self.run_control(i, bus),
        }
    }

    /// Decode and execute the instruction whose opcode has been fetched.
    fn execute<B: AddressSpace>(&mut self, op: u8, bus: &mut B)
        requires
            B::valid(old(bus).state()),
            old(self).cycles + 30 <= u64::MAX,
        ensures
            B::valid(final(bus).state()),
            machine::<B>(*final(self), final(bus).state()) == executed(
                machine::<B>(*old(self), old(bus).state()),
                op,
            ),
            old(self).cycles + 6 <= final(self).cycles <= old(self).cycles + 30,
    {
        self.spend(6);
        self.run_instr(decode(op), bus);
    }

    /// A step of a processor that is not waiting.
    fn step_awake<B: AddressSpace>(&mut self, bus: &mut B)
        requires
            B::valid(old(bus).state()),
            old(self).cycles + 42 <= u64::MAX,
        ensures
            B::valid(final(bus).state()),
            machine::<B>(*final(self), final(bus).state()) == awake_step(
                machine::<B>(*old(self), old(bus).state()),
            ),
            old(self).cycles + 6 <= final(self).cycles <= old(self).cycles + 42,
    {
        if self.stopped {
            self.spend(6);
        } else if self.nmi_pending {
            self.nmi_pending = false;
            let vector: u32 = if self.emulation {
                0xFFFA
            } else {
                0xFFEA
            };
            self.enter_interrupt(vector, bus);
            self.spend(42);
        } else if self.irq_wanted() {
            let vector: u32 = if self.emulation {
                0xFFFE
            } else {
                0xFFEE
            };
            self.enter_interrupt(vector, bus);
            self.spend(42);
        } else {
            let op: u8 = self.fetch8(bus);
            self.execute(op, bus);
        }
    }

    /// Execute one instruction or take one interrupt. Returns the master
    /// cycles consumed.
    pub fn step<B: AddressSpace>(&mut self, bus: &mut B) -> (spent: u32)
        requires
            B::valid(old(bus).state()),
            old(self).cycles + MAX_STEP_CYCLES <= u64::MAX,
        ensures
            B::valid(final(bus).state()),
            machine::<B>(*final(self), final(bus).state()) == stepped(
                machine::<B>(*old(self), old(bus).state()),
            ),
            spent == final(self).cycles - old(self).cycles,
            6 <= spent <= MAX_STEP_CYCLES,
    {
        reveal(stepped);
        let start: u64 = self.cycles;
        self.check_nmi();
        if self.waiting {
            if self.nmi_pending || self.irq_wanted() {
                self.waiting = false;
                self.spend(6);
            } else {
                self.spend(6);
                return (self.cycles - start) as u32;
            }
        }
        self.step_awake(bus);
        (self.cycles - start) as u32
    }
}

/// The instruction of an opcode.
fn decode(op: u8) -> (i: Instr)
    ensures
        i == decoded(op),
{
    match op {
        0x00 => Instr::Break,
        0x01 => Instr::Read(ReadOp::Ora, Mode::DpXInd),
        0x02 => Instr::Coprocessor,
        0x03 => Instr::Read(ReadOp::Ora, Mode::Sr),
        0x04 => Instr::Modify(ModifyOp::Tsb, Mode::Dp),
        0x05 => Instr::Read(ReadOp::Ora, Mode::Dp),
        0x06 => Instr::Modify(ModifyOp::Asl, Mode::Dp),
        0x07 => Instr::Read(ReadOp::Ora, Mode::DpIndLong),
        0x08 => Instr::Push(StackReg::P),
        0x09 => Instr::Immediate(ReadOp::Ora),
        0x0A => Instr::ModifyAcc(ModifyOp::Asl),
        0x0B => Instr::Push(StackReg::D),
        0x0C => Instr::Modify(ModifyOp::Tsb, Mode::Abs),
        0x0D => Instr::Read(ReadOp::Ora, Mode::Abs),
        0x0E => Instr::Modify(ModifyOp::Asl, Mode::Abs),
        0x0F => Instr::Read(ReadOp::Ora, Mode::AbsLong),
        0x10 => Instr::Branch(FLAG_N, false),
        0x11 => Instr::Read(ReadOp::Ora, Mode::DpIndY),
        0x12 => Instr::Read(ReadOp::Ora, Mode::DpInd),
        0x13 => Instr::Read(ReadOp::Ora, Mode::SrIndY),
        0x14 => Instr::Modify(ModifyOp::Trb, Mode::Dp),
        0x15 => Instr::Read(ReadOp::Ora, Mode::DpX),
        0x16 => Instr::Modify(ModifyOp::Asl, Mode::DpX),
        0x17 => Instr::Read(ReadOp::Ora, Mode::DpIndLongY),
        0x18 => Instr::Flag(FLAG_C, false),
        0x19 => Instr::Read(ReadOp::Ora, Mode::AbsY),
        0x1A => Instr::ModifyAcc(ModifyOp::Inc),
        0x1B => Instr::Transfer(Transfer::Tcs),
        0x1C => Instr::Modify(ModifyOp::Trb, Mode::Abs),
        0x1D => Instr::Read(ReadOp::Ora, Mode::AbsX),
        0x1E => Instr::Modify(ModifyOp::Asl, Mode::AbsX),
        0x1F => Instr::Read(ReadOp::Ora, Mode::AbsLongX),
        0x20 => Instr::Jump(Jump::Call),
        0x21 => Instr::Read(ReadOp::And, Mode::DpXInd),
        0x22 => Instr::Jump(Jump::CallLong),
        0x23 => Instr::Read(ReadOp::And, Mode::Sr),
        0x24 => Instr::Read(ReadOp::Bit, Mode::Dp),
        0x25 => Instr::Read(ReadOp::And, Mode::Dp),
        0x26 => Instr::Modify(ModifyOp::Rol, Mode::Dp),
        0x27 => Instr::Read(ReadOp::And, Mode::DpIndLong),
        0x28 => Instr::Pull(StackReg::P),
        0x29 => Instr::Immediate(ReadOp::And),
        0x2A => Instr::ModifyAcc(ModifyOp::Rol),
        0x2B => Instr::Pull(StackReg::D),
        0x2C => Instr::Read(ReadOp::Bit, Mode::Abs),
        0x2D => Instr::Read(ReadOp::And, Mode::Abs),
        0x2E => Instr::Modify(ModifyOp::Rol, Mode::Abs),
        0x2F => Instr::Read(ReadOp::And, Mode::AbsLong),
        0x30 => Instr::Branch(FLAG_N, true),
        0x31 => Instr::Read(ReadOp::And, Mode::DpIndY),
        0x32 => Instr::Read(ReadOp::And, Mode::DpInd),
        0x33 => Instr::Read(ReadOp::And, Mode::SrIndY),
        0x34 => Instr::Read(ReadOp::Bit, Mode::DpX),
        0x35 => Instr::Read(ReadOp::And, Mode::DpX),
        0x36 => Instr::Modify(ModifyOp::Rol, Mode::DpX),
        0x37 => Instr::Read(ReadOp::And, Mode::DpIndLongY),
        0x38 => Instr::Flag(FLAG_C, true),
        0x39 => Instr::Read(ReadOp::And, Mode::AbsY),
        0x3A => Instr::ModifyAcc(ModifyOp::Dec),
        0x3B => Instr::Transfer(Transfer::Tsc),
        0x3C => Instr::Read(ReadOp::Bit, Mode::AbsX),
        0x3D => Instr::Read(ReadOp::And, Mode::AbsX),
        0x3E => Instr::Modify(ModifyOp::Rol, Mode::AbsX),
        0x3F => Instr::Read(ReadOp::And, Mode::AbsLongX),
        0x40 => Instr::Jump(Jump::ReturnInterrupt),
        0x41 => Instr::Read(ReadOp::Eor, Mode::DpXInd),
        0x42 => Instr::Wdm,
        0x43 => Instr::Read(ReadOp::Eor, Mode::Sr),
        0x44 => Instr::Move(true),
        0x45 => Instr::Read(ReadOp::Eor, Mode::Dp),
        0x46 => Instr::Modify(ModifyOp::Lsr, Mode::Dp),
        0x47 => Instr::Read(ReadOp::Eor, Mode::DpIndLong),
        0x48 => Instr::Push(StackReg::A),
        0x49 => Instr::Immediate(ReadOp::Eor),
        0x4A => Instr::ModifyAcc(ModifyOp::Lsr),
        0x4B => Instr::Push(StackReg::Pbr),
        0x4C => Instr::Jump(Jump::Abs),
        0x4D => Instr::Read(ReadOp::Eor, Mode::Abs),
        0x4E => Instr::Modify(ModifyOp::Lsr, Mode::Abs),
        0x4F => Instr::Read(ReadOp::Eor, Mode::AbsLong),
        0x50 => Instr::Branch(FLAG_V, false),
        0x51 => Instr::Read(ReadOp::Eor, Mode::DpIndY),
        0x52 => Instr::Read(ReadOp::Eor, Mode::DpInd),
        0x53 => Instr::Read(ReadOp::Eor, Mode::SrIndY),
        0x54 => Instr::Move(false),
        0x55 => Instr::Read(ReadOp::Eor, Mode::DpX),
        0x56 => Instr::Modify(ModifyOp::Lsr, Mode::DpX),
        0x57 => Instr::Read(ReadOp::Eor, Mode::DpIndLongY),
        0x58 => Instr::Flag(FLAG_I, false),
        0x59 => Instr::Read(ReadOp::Eor, Mode::AbsY),
        0x5A => Instr::Push(StackReg::Y),
        0x5B => Instr::Transfer(Transfer::Tcd),
        0x5C => Instr::Jump(Jump::Long),
        0x5D => Instr::Read(ReadOp::Eor, Mode::AbsX),
        0x5E => Instr::Modify(ModifyOp::Lsr, Mode::AbsX),
        0x5F => Instr::Read(ReadOp::Eor, Mode::AbsLongX),
        0x60 => Instr::Jump(Jump::Return),
        0x61 => Instr::Read(ReadOp::Adc, Mode::DpXInd),
        0x62 => Instr::PushRel,
        0x63 => Instr::Read(ReadOp::Adc, Mode::Sr),
        0x64 => Instr::Store(StoreOp::Stz, Mode::Dp),
        0x65 => Instr::Read(ReadOp::Adc, Mode::Dp),
        0x66 => Instr::Modify(ModifyOp::Ror, Mode::Dp),
        0x67 => Instr::Read(ReadOp::Adc, Mode::DpIndLong),
        0x68 => Instr::Pull(StackReg::A),
        0x69 => Instr::Immediate(ReadOp::Adc),
        0x6A => Instr::ModifyAcc(ModifyOp::Ror),
        0x6B => Instr::Jump(Jump::ReturnLong),
        0x6C => Instr::Jump(Jump::AbsInd),
        0x6D => Instr::Read(ReadOp::Adc, Mode::Abs),
        0x6E => Instr::Modify(ModifyOp::Ror, Mode::Abs),
        0x6F => Instr::Read(ReadOp::Adc, Mode::AbsLong),
        0x70 => Instr::Branch(FLAG_V, true),
        0x71 => Instr::Read(ReadOp::Adc, Mode::DpIndY),
        0x72 => Instr::Read(ReadOp::Adc, Mode::DpInd),
        0x73 => Instr::Read(ReadOp::Adc, Mode::SrIndY),
        0x74 => Instr::Store(StoreOp::Stz, Mode::DpX),
        0x75 => Instr::Read(ReadOp::Adc, Mode::DpX),
        0x76 => Instr::Modify(ModifyOp::Ror, Mode::DpX),
        0x77 => Instr::Read(ReadOp::Adc, Mode::DpIndLongY),
        0x78 => Instr::Flag(FLAG_I, true),
        0x79 => Instr::Read(ReadOp::Adc, Mode::AbsY),
        0x7A => Instr::Pull(StackReg::Y),
        0x7B => Instr::Transfer(Transfer::Tdc),
        0x7C => Instr::Jump(Jump::AbsXInd),
        0x7D => Instr::Read(ReadOp::Adc, Mode::AbsX),
        0x7E => Instr::Modify(ModifyOp::Ror, Mode::AbsX),
        0x7F => Instr::Read(ReadOp::Adc, Mode::AbsLongX),
        0x80 => Instr::BranchAlways,
        0x81 => Instr::Store(StoreOp::Sta, Mode::DpXInd),
        0x82 => Instr::BranchLong,
        0x83 => Instr::Store(StoreOp::Sta, Mode::Sr),
        0x84 => Instr::Store(StoreOp::Sty, Mode::Dp),
        0x85 => Instr::Store(StoreOp::Sta, Mode::Dp),
        0x86 => Instr::Store(StoreOp::Stx, Mode::Dp),
        0x87 => Instr::Store(StoreOp::Sta, Mode::DpIndLong),
        0x88 => Instr::Count(false, false),
        0x89 => Instr::Immediate(ReadOp::Bit),
        0x8A => Instr::Transfer(Transfer::Txa),
        0x8B => Instr::Push(StackReg::Dbr),
        0x8C => Instr::Store(StoreOp::Sty, Mode::Abs),
        0x8D => Instr::Store(StoreOp::Sta, Mode::Abs),
        0x8E => Instr::Store(StoreOp::Stx, Mode::Abs),
        0x8F => Instr::Store(StoreOp::Sta, Mode::AbsLong),
        0x90 => Instr::Branch(FLAG_C, false),
        0x91 => Instr::Store(StoreOp::Sta, Mode::DpIndY),
        0x92 => Instr::Store(StoreOp::Sta, Mode::DpInd),
        0x93 => Instr::Store(StoreOp::Sta, Mode::SrIndY),
        0x94 => Instr::Store(StoreOp::Sty, Mode::DpX),
        0x95 => Instr::Store(StoreOp::Sta, Mode::DpX),
        0x96 => Instr::Store(StoreOp::Stx, Mode::DpY),
        0x97 => Instr::Store(StoreOp::Sta, Mode::DpIndLongY),
        0x98 => Instr::Transfer(Transfer::Tya),
        0x99 => Instr::Store(StoreOp::Sta, Mode::AbsY),
        0x9A => Instr::Transfer(Transfer::Txs),
        0x9B => Instr::Transfer(Transfer::Txy),
        0x9C => Instr::Store(StoreOp::Stz, Mode::Abs),
        0x9D => Instr::Store(StoreOp::Sta, Mode::AbsX),
        0x9E => Instr::Store(StoreOp::Stz, Mode::AbsX),
        0x9F => Instr::Store(StoreOp::Sta, Mode::AbsLongX),
        0xA0 => Instr::Immediate(ReadOp::Ldy),
        0xA1 => Instr::Read(ReadOp::Lda, Mode::DpXInd),
        0xA2 => Instr::Immediate(ReadOp::Ldx),
        0xA3 => Instr::Read(ReadOp::Lda, Mode::Sr),
        0xA4 => Instr::Read(ReadOp::Ldy, Mode::Dp),
        0xA5 => Instr::Read(ReadOp::Lda, Mode::Dp),
        0xA6 => Instr::Read(ReadOp::Ldx, Mode::Dp),
        0xA7 => Instr::Read(ReadOp::Lda, Mode::DpIndLong),
        0xA8 => Instr::Transfer(Transfer::Tay),
        0xA9 => Instr::Immediate(ReadOp::Lda),
        0xAA => Instr::Transfer(Transfer::Tax),
        0xAB => Instr::Pull(StackReg::Dbr),
        0xAC => Instr::Read(ReadOp::Ldy, Mode::Abs),
        0xAD => Instr::Read(ReadOp::Lda, Mode::Abs),
        0xAE => Instr::Read(ReadOp::Ldx, Mode::Abs),
        0xAF => Instr::Read(ReadOp::Lda, Mode::AbsLong),
        0xB0 => Instr::Branch(FLAG_C, true),
        0xB1 => Instr::Read(ReadOp::Lda, Mode::DpIndY),
        0xB2 => Instr::Read(ReadOp::Lda, Mode::DpInd),
        0xB3 => Instr::Read(ReadOp::Lda, Mode::SrIndY),
        0xB4 => Instr::Read(ReadOp::Ldy, Mode::DpX),
        0xB5 => Instr::Read(ReadOp::Lda, Mode::DpX),
        0xB6 => Instr::Read(ReadOp::Ldx, Mode::DpY),
        0xB7 => Instr::Read(ReadOp::Lda, Mode::DpIndLongY),
        0xB8 => Instr::Flag(FLAG_V, false),
        0xB9 => Instr::Read(ReadOp::Lda, Mode::AbsY),
        0xBA => Instr::Transfer(Transfer::Tsx),
        0xBB => Instr::Transfer(Transfer::Tyx),
        0xBC => Instr::Read(ReadOp::Ldy, Mode::AbsX),
        0xBD => Instr::Read(ReadOp::Lda, Mode::AbsX),
        0xBE => Instr::Read(ReadOp::Ldx, Mode::AbsY),
        0xBF => Instr::Read(ReadOp::Lda, Mode::AbsLongX),
        0xC0 => Instr::Immediate(ReadOp::Cpy),
        0xC1 => Instr::Read(ReadOp::Compare, Mode::DpXInd),
        0xC2 => Instr::Mask(false),
        0xC3 => Instr::Read(ReadOp::Compare, Mode::Sr),
        0xC4 => Instr::Read(ReadOp::Cpy, Mode::Dp),
        0xC5 => Instr::Read(ReadOp::Compare, Mode::Dp),
        0xC6 => Instr::Modify(ModifyOp::Dec, Mode::Dp),
        0xC7 => Instr::Read(ReadOp::Compare, Mode::DpIndLong),
        0xC8 => Instr::Count(false, true),
        0xC9 => Instr::Immediate(ReadOp::Compare),
        0xCA => Instr::Count(true, false),
        0xCB => Instr::Wait,
        0xCC => Instr::Read(ReadOp::Cpy, Mode::Abs),
        0xCD => Instr::Read(ReadOp::Compare, Mode::Abs),
        0xCE => Instr::Modify(ModifyOp::Dec, Mode::Abs),
        0xCF => Instr::Read(ReadOp::Compare, Mode::AbsLong),
        0xD0 => Instr::Branch(FLAG_Z, false),
        0xD1 => Instr::Read(ReadOp::Compare, Mode::DpIndY),
        0xD2 => Instr::Read(ReadOp::Compare, Mode::DpInd),
        0xD3 => Instr::Read(ReadOp::Compare, Mode::SrIndY),
        0xD4 => Instr::PushInd,
        0xD5 => Instr::Read(ReadOp::Compare, Mode::DpX),
        0xD6 => Instr::Modify(ModifyOp::Dec, Mode::DpX),
        0xD7 => Instr::Read(ReadOp::Compare, Mode::DpIndLongY),
        0xD8 => Instr::Flag(FLAG_D, false),
        0xD9 => Instr::Read(ReadOp::Compare, Mode::AbsY),
        0xDA => Instr::Push(StackReg::X),
        0xDB => Instr::Stop,
        0xDC => Instr::Jump(Jump::LongInd),
        0xDD => Instr::Read(ReadOp::Compare, Mode::AbsX),
        0xDE => Instr::Modify(ModifyOp::Dec, Mode::AbsX),
        0xDF => Instr::Read(ReadOp::Compare, Mode::AbsLongX),
        0xE0 => Instr::Immediate(ReadOp::Cpx),
        0xE1 => Instr::Read(ReadOp::Sbc, Mode::DpXInd),
        0xE2 => Instr::Mask(true),
        0xE3 => Instr::Read(ReadOp::Sbc, Mode::Sr),
        0xE4 => Instr::Read(ReadOp::Cpx, Mode::Dp),
        0xE5 => Instr::Read(ReadOp::Sbc, Mode::Dp),
        0xE6 => Instr::Modify(ModifyOp::Inc, Mode::Dp),
        0xE7 => Instr::Read(ReadOp::Sbc, Mode::DpIndLong),
        0xE8 => Instr::Count(true, true),
        0xE9 => Instr::Immediate(ReadOp::Sbc),
        0xEA => Instr::Nop,
        0xEB => Instr::ExchangeBytes,
        0xEC => Instr::Read(ReadOp::Cpx, Mode::Abs),
        0xED => Instr::Read(ReadOp::Sbc, Mode::Abs),
        0xEE => Instr::Modify(ModifyOp::Inc, Mode::Abs),
        0xEF => Instr::Read(ReadOp::Sbc, Mode::AbsLong),
        0xF0 => Instr::Branch(FLAG_Z, true),
        0xF1 => Instr::Read(ReadOp::Sbc, Mode::DpIndY),
        0xF2 => Instr::Read(ReadOp::Sbc, Mode::DpInd),
        0xF3 => Instr::Read(ReadOp::Sbc, Mode::SrIndY),
        0xF4 => Instr::PushAbs,
        0xF5 => Instr::Read(ReadOp::Sbc, Mode::DpX),
        0xF6 => Instr::Modify(ModifyOp::Inc, Mode::DpX),
        0xF7 => Instr::Read(ReadOp::Sbc, Mode::DpIndLongY),
        0xF8 => Instr::Flag(FLAG_D, true),
        0xF9 => Instr::Read(ReadOp::Sbc, Mode::AbsY),
        0xFA => Instr::Pull(StackReg::X),
        0xFB => Instr::ExchangeCarry,
        0xFC => Instr::Jump(Jump::CallXInd),
        0xFD => Instr::Read(ReadOp::Sbc, Mode::AbsX),
        0xFE => Instr::Modify(ModifyOp::Inc, Mode::AbsX),
        0xFF => Instr::Read(ReadOp::Sbc, Mode::AbsLongX),
    }
}

/// Bitwise operations on bytes give bytes.
proof fn lemma_bits_stay_narrow(a: u16, v: u16)
    by (bit_vector)
    ensures
        a < 0x100 && v < 0x100 ==> a | v < 0x100 && a ^ v < 0x100,
        a < 0x100 || v < 0x100 ==> a & v < 0x100,
        a | v == v | a,
{
}

} // verus!
