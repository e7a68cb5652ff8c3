//! Words for what an instruction of the 65C816 does, over its bytes, the
//! registers before it and the memory, one step at a time.

use vstd::prelude::*;

use crate::snes::address_space::AddressSpace;
use crate::snes::cpu::Cpu65816;
use crate::snes::cpu_model::Machine;

verus! {

// ── The instruction's bytes ──

/// Address of byte `k` of the instruction at the program counter.
pub open spec fn at_pc<B: AddressSpace>(m: Machine<B>, k: int) -> u32 {
    (0x1_0000 * m.cpu.pbr + (m.cpu.pc + k) % 0x1_0000) as u32
}

/// Memory after the first `k` bytes of the instruction were read.
pub open spec fn fetched<B: AddressSpace>(m: Machine<B>, k: nat) -> B::State
    decreases k,
{
    if k == 0 {
        m.mem
    } else {
        B::after_read(fetched(m, (k - 1) as nat), at_pc(m, k - 1))
    }
}

/// Byte `k` of the instruction; byte 0 is the opcode.
pub open spec fn code<B: AddressSpace>(m: Machine<B>, k: nat) -> u8 {
    B::peek(fetched(m, k), at_pc(m, k as int))
}

/// The two bytes after the opcode, the low one first.
pub open spec fn code_word<B: AddressSpace>(m: Machine<B>) -> int {
    code(m, 1) + 0x100 * code(m, 2)
}

/// A processor about to run the instruction at its program counter: neither
/// halted nor interrupted.
pub open spec fn ready<B: AddressSpace>(m: Machine<B>) -> bool {
    &&& !m.cpu.stopped
    &&& !m.cpu.waiting
    &&& !m.cpu.nmi_pending
    &&& !(m.cpu.nmi_line && !m.cpu.nmi_prev)
    &&& !(m.cpu.irq_line && m.cpu.p & 0x04 == 0)
    &&& m.cpu.cycles <= u64::MAX - 60
}

/// The registers after an instruction of so many bytes and cycles that touches no
/// other.
pub open spec fn advanced(c: Cpu65816, bytes: int, cycles: int) -> Cpu65816 {
    Cpu65816 {
        pc: ((c.pc + bytes) % 0x1_0000) as u16,
        cycles: (c.cycles + cycles) as u64,
        nmi_prev: c.nmi_line,
        ..c
    }
}

// ── Widths ──

/// Whether the accumulator and memory are eight bits wide.
pub open spec fn byte_acc(c: Cpu65816) -> bool {
    c.emulation || c.p & 0x20 != 0
}

/// Whether the index registers are eight bits wide.
pub open spec fn byte_index(c: Cpu65816) -> bool {
    c.emulation || c.p & 0x10 != 0
}

/// The numbers that fit a width.
pub open spec fn range(narrow: bool) -> int {
    if narrow {
        0x100
    } else {
        0x1_0000
    }
}

/// The part of a register that counts.
pub open spec fn part(narrow: bool, v: u16) -> int {
    if narrow {
        v as int % 0x100
    } else {
        v as int
    }
}

/// The accumulator holds a value; its upper byte stays where it is narrow.
pub open spec fn holds(c: Cpu65816, narrow: bool, a: u16, w: int) -> bool {
    &&& part(narrow, a) == w
    &&& narrow ==> a as int / 0x100 == c.a as int / 0x100
}

/// A number read as two's complement.
pub open spec fn as_signed(narrow: bool, v: int) -> int {
    if 2 * v >= range(narrow) {
        v - range(narrow)
    } else {
        v
    }
}

// ── Flags ──

/// N and Z tell of a value, the other flags in `kept` stay.
pub open spec fn tells(p: u8, q: u8, kept: u8, narrow: bool, w: int) -> bool {
    &&& q & kept == p & kept
    &&& q & 0x80 != 0 <==> 2 * w >= range(narrow)
    &&& q & 0x02 != 0 <==> w == 0
}

/// The carry flag as a number.
pub open spec fn carry(p: u8) -> int {
    if p & 0x01 != 0 {
        1
    } else {
        0
    }
}

// ── Memory ──

/// The word at an address, the low byte first.
pub open spec fn word_at<B: AddressSpace>(s: B::State, a: u32) -> int {
    B::peek(s, a) + 0x100 * B::peek(B::after_read(s, a), ((a + 1) % 0x1_0000_0000) as u32)
}

pub open spec fn word_read<B: AddressSpace>(s: B::State, a: u32) -> B::State {
    B::after_read(B::after_read(s, a), ((a + 1) % 0x1_0000_0000) as u32)
}

pub open spec fn word_put<B: AddressSpace>(s: B::State, a: u32, v: int) -> B::State {
    B::after_write(
        B::after_write(s, a, (v % 0x100) as u8),
        ((a + 1) % 0x1_0000_0000) as u32,
        (v / 0x100) as u8,
    )
}

/// A value of the given width at an address.
pub open spec fn value_at<B: AddressSpace>(s: B::State, narrow: bool, a: u32) -> int {
    if narrow {
        B::peek(s, a) as int
    } else {
        word_at::<B>(s, a)
    }
}

pub open spec fn value_read<B: AddressSpace>(s: B::State, narrow: bool, a: u32) -> B::State {
    if narrow {
        B::after_read(s, a)
    } else {
        word_read::<B>(s, a)
    }
}

pub open spec fn value_put<B: AddressSpace>(s: B::State, narrow: bool, a: u32, v: int) -> B::State {
    if narrow {
        B::after_write(s, a, (v % 0x100) as u8)
    } else {
        word_put::<B>(s, a, v)
    }
}

/// The stack slot `k` bytes below the pointer, above it for a negative `k`: in page
/// one in emulation mode.
#[verifier::opaque]
pub open spec fn slot(c: Cpu65816, k: int) -> u16 {
    if k == 0 {
        c.s
    } else if c.emulation {
        (0x100 + (c.s - k) % 0x100) as u16
    } else {
        ((c.s - k) % 0x1_0000) as u16
    }
}

/// A byte pushed as number `k`.
pub open spec fn on_stack<B: AddressSpace>(s: B::State, c: Cpu65816, k: int, b: int) -> B::State {
    B::after_write(s, slot(c, k) as u32, b as u8)
}

/// Byte number `k` of those that are pulled, counted from 1.
pub open spec fn from_stack<B: AddressSpace>(s: B::State, c: Cpu65816, k: int) -> u8 {
    B::peek(s, slot(c, -k) as u32)
}

pub open spec fn stack_read<B: AddressSpace>(s: B::State, c: Cpu65816, k: int) -> B::State {
    B::after_read(s, slot(c, -k) as u32)
}

// ── Operands in memory ──

/// Where an operand stands, what was read to find it, and what that took.
pub struct Operand<S> {
    pub addr: u32,
    pub mem: S,
    pub bytes: int,
    pub cycles: int,
}

/// What the direct page costs where it is not aligned.
pub open spec fn unaligned(c: Cpu65816) -> int {
    if c.d as int % 0x100 != 0 {
        6
    } else {
        0
    }
}

/// Address in the direct page: the page, the byte after the opcode, and an index.
pub open spec fn direct_addr<B: AddressSpace>(m: Machine<B>, index: u16) -> u32 {
    ((m.cpu.d + code(m, 1) + index) % 0x1_0000) as u32
}

/// `dp`, `dp,X` and `dp,Y`: an index takes six cycles.
pub open spec fn direct_operand<B: AddressSpace>(m: Machine<B>, index: u16, time: int) -> Operand<
    B::State,
> {
    Operand {
        addr: direct_addr(m, index),
        mem: fetched(m, 2),
        bytes: 2,
        cycles: 6 + time + unaligned(m.cpu),
    }
}

/// `(dp)`, `(dp,X)` and `(dp),Y`: a pointer into the data bank.
pub open spec fn pointer_operand<B: AddressSpace>(
    m: Machine<B>,
    before: u16,
    time: int,
    behind: u16,
) -> Operand<B::State> {
    let at = direct_addr(m, before);
    Operand {
        addr: (0x1_0000 * m.cpu.dbr + word_at::<B>(fetched(m, 2), at) + behind) as u32,
        mem: word_read::<B>(fetched(m, 2), at),
        bytes: 2,
        cycles: 6 + time + unaligned(m.cpu),
    }
}

/// `[dp]` and `[dp],Y`: a pointer with its bank.
pub open spec fn long_pointer_operand<B: AddressSpace>(m: Machine<B>, behind: u16) -> Operand<
    B::State,
> {
    let at = direct_addr(m, 0);
    let s = word_read::<B>(fetched(m, 2), at);
    let bank = B::peek(s, (at + 2) as u32);
    Operand {
        addr: (0x1_0000 * bank + word_at::<B>(fetched(m, 2), at) + behind) as u32,
        mem: B::after_read(s, (at + 2) as u32),
        bytes: 2,
        cycles: 6 + unaligned(m.cpu),
    }
}

/// `abs`, `abs,X` and `abs,Y` in the data bank.
pub open spec fn absolute_operand<B: AddressSpace>(m: Machine<B>, index: u16) -> Operand<B::State> {
    Operand {
        addr: (0x1_0000 * m.cpu.dbr + code_word(m) + index) as u32,
        mem: fetched(m, 3),
        bytes: 3,
        cycles: 6,
    }
}

/// `long` and `long,X`.
pub open spec fn long_operand<B: AddressSpace>(m: Machine<B>, index: u16) -> Operand<B::State> {
    Operand {
        addr: (0x1_0000 * code(m, 3) + code_word(m) + index) as u32,
        mem: fetched(m, 4),
        bytes: 4,
        cycles: 6,
    }
}

/// `sr,S`.
pub open spec fn stack_operand<B: AddressSpace>(m: Machine<B>) -> Operand<B::State> {
    Operand {
        addr: ((m.cpu.s + code(m, 1)) % 0x1_0000) as u32,
        mem: fetched(m, 2),
        bytes: 2,
        cycles: 12,
    }
}

/// `(sr,S),Y`.
pub open spec fn stack_pointer_operand<B: AddressSpace>(m: Machine<B>) -> Operand<B::State> {
    let at = ((m.cpu.s + code(m, 1)) % 0x1_0000) as u32;
    Operand {
        addr: (0x1_0000 * m.cpu.dbr + word_at::<B>(fetched(m, 2), at) + m.cpu.y) as u32,
        mem: word_read::<B>(fetched(m, 2), at),
        bytes: 2,
        cycles: 12,
    }
}

/// The operand that the low five bits of an opcode of the regular part name.
pub open spec fn regular_operand<B: AddressSpace>(m: Machine<B>, low: int) -> Operand<B::State> {
    if low == 0x01 {
        pointer_operand(m, m.cpu.x, 6, 0)
    } else if low == 0x03 {
        stack_operand(m)
    } else if low == 0x05 {
        direct_operand(m, 0, 0)
    } else if low == 0x07 {
        long_pointer_operand(m, 0)
    } else if low == 0x0D {
        absolute_operand(m, 0)
    } else if low == 0x0F {
        long_operand(m, 0)
    } else if low == 0x11 {
        pointer_operand(m, 0, 0, m.cpu.y)
    } else if low == 0x12 {
        pointer_operand(m, 0, 0, 0)
    } else if low == 0x13 {
        stack_pointer_operand(m)
    } else if low == 0x15 {
        direct_operand(m, m.cpu.x, 6)
    } else if low == 0x17 {
        long_pointer_operand(m, m.cpu.y)
    } else if low == 0x19 {
        absolute_operand(m, m.cpu.y)
    } else if low == 0x1D {
        absolute_operand(m, m.cpu.x)
    } else {
        long_operand(m, m.cpu.x)
    }
}

/// Whether the low five bits of an opcode belong to the regular part.
pub open spec fn regular(low: int) -> bool {
    ||| low == 0x01 || low == 0x03 || low == 0x05 || low == 0x07 || low == 0x0D || low == 0x0F
    ||| low == 0x11 || low == 0x12 || low == 0x13 || low == 0x15 || low == 0x17 || low == 0x19
    ||| low == 0x1D || low == 0x1F
}

// ── Results ──

/// The accumulator takes a value.
pub open spec fn taken(c: Cpu65816, narrow: bool, w: int, a: u16, q: u8) -> bool {
    holds(c, narrow, a, w) && tells(c.p, q, 0x7D, narrow, w)
}

/// Sum with the carry, in binary.
pub open spec fn added(c: Cpu65816, narrow: bool, v: int, a: u16, q: u8) -> bool {
    let x = part(narrow, c.a);
    let sum = x + v + carry(c.p);
    let signed_sum = as_signed(narrow, x) + as_signed(narrow, v) + carry(c.p);
    let w = if sum >= range(narrow) {
        sum - range(narrow)
    } else {
        sum
    };
    &&& holds(c, narrow, a, w)
    &&& tells(c.p, q, 0x3C, narrow, w)
    &&& q & 0x01 != 0 <==> sum >= range(narrow)
    &&& q & 0x40 != 0 <==> signed_sum != as_signed(narrow, w)
}

/// Difference with the borrow, in binary; the carry is set where there is none.
pub open spec fn subtracted(c: Cpu65816, narrow: bool, v: int, a: u16, q: u8) -> bool {
    let x = part(narrow, c.a);
    let diff = x - v - (1 - carry(c.p));
    let signed_diff = as_signed(narrow, x) - as_signed(narrow, v) - (1 - carry(c.p));
    let w = if diff < 0 {
        diff + range(narrow)
    } else {
        diff
    };
    &&& holds(c, narrow, a, w)
    &&& tells(c.p, q, 0x3C, narrow, w)
    &&& q & 0x01 != 0 <==> diff >= 0
    &&& q & 0x40 != 0 <==> signed_diff != as_signed(narrow, w)
}

/// A number whose hexadecimal digits are all decimal ones.
#[verifier::opaque]
pub open spec fn is_decimal(v: int) -> bool {
    &&& 0 <= v < 0x1_0000
    &&& v % 16 <= 9
    &&& v / 16 % 16 <= 9
    &&& v / 256 % 16 <= 9
    &&& v / 4096 <= 9
}

/// What such a number says.
#[verifier::opaque]
pub open spec fn decimal(v: int) -> int {
    v % 16 + 10 * (v / 16 % 16) + 100 * (v / 256 % 16) + 1000 * (v / 4096)
}

/// Sum with the carry, in decimal digits. A byte keeps what exceeds nine tens as
/// one digit, with the carry beside it; a word wraps round at ten thousand.
pub open spec fn added_in_decimal(c: Cpu65816, narrow: bool, v: int, a: u16, q: u8) -> bool {
    let x = part(narrow, c.a);
    let w = part(narrow, a);
    let sum = decimal(x) + decimal(v) + carry(c.p);
    let half = range(narrow) / 2;
    &&& holds(c, narrow, a, w)
    &&& tells(c.p, q, 0x3C, narrow, w)
    &&& narrow ==> w == 16 * (sum / 10 % 16) + sum % 10
    &&& narrow ==> (q & 0x01 != 0 <==> sum >= 100)
    &&& !narrow ==> is_decimal(w) && decimal(w) == sum % 10000
    &&& !narrow ==> (q & 0x01 != 0 <==> sum >= 10000)
    &&& q & 0x40 != 0 <==> ((x >= half) == (v >= half) && (w >= half) != (x >= half))
}

/// Difference with the borrow, in decimal digits, round at a hundred or at ten
/// thousand.
pub open spec fn subtracted_in_decimal(c: Cpu65816, narrow: bool, v: int, a: u16, q: u8) -> bool {
    let x = part(narrow, c.a);
    let w = part(narrow, a);
    let diff = decimal(x) - decimal(v) - (1 - carry(c.p));
    let plain = as_signed(narrow, x) - as_signed(narrow, v) - (1 - carry(c.p));
    &&& holds(c, narrow, a, w)
    &&& tells(c.p, q, 0x3C, narrow, w)
    &&& is_decimal(w)
    &&& decimal(w) == if diff >= 0 {
        diff
    } else if narrow {
        diff + 100
    } else {
        diff + 10000
    }
    &&& q & 0x01 != 0 <==> diff >= 0
    &&& q & 0x40 != 0 <==> !(-range(narrow) <= 2 * plain < range(narrow))
}

/// A register against a value: the flags of their difference, the carry where the
/// register is not smaller.
pub open spec fn compared(p: u8, narrow: bool, x: int, v: int, q: u8) -> bool {
    let w = if x < v {
        x - v + range(narrow)
    } else {
        x - v
    };
    &&& tells(p, q, 0x7C, narrow, w)
    &&& q & 0x01 != 0 <==> x >= v
}

/// Two bits of a value and whether it shares one with the accumulator.
pub open spec fn tested(c: Cpu65816, narrow: bool, v: int, q: u8) -> bool {
    let x = part(narrow, c.a) as u16;
    &&& q & 0x3D == c.p & 0x3D
    &&& q & 0x80 != 0 <==> v / (range(narrow) / 2) == 1
    &&& q & 0x40 != 0 <==> v / (range(narrow) / 4) % 2 == 1
    &&& q & 0x02 != 0 <==> x & (v as u16) == 0
}

/// The result of one of the eight rows of the regular part (but for stores, row 4):
/// the new accumulator and flags. In decimal mode it is told for decimal numbers.
#[verifier::opaque]
pub open spec fn row_result(row: int, c: Cpu65816, v: int, a: u16, q: u8) -> bool {
    let narrow = byte_acc(c);
    let x = part(narrow, c.a) as u16;
    if row == 0 {
        taken(c, narrow, (x | (v as u16)) as int, a, q)
    } else if row == 1 {
        taken(c, narrow, (x & (v as u16)) as int, a, q)
    } else if row == 2 {
        taken(c, narrow, (x ^ (v as u16)) as int, a, q)
    } else if row == 3 {
        if c.p & 0x08 == 0 {
            added(c, narrow, v, a, q)
        } else {
            is_decimal(x as int) && is_decimal(v) ==> added_in_decimal(c, narrow, v, a, q)
        }
    } else if row == 5 {
        taken(c, narrow, v, a, q)
    } else if row == 6 {
        a == c.a && compared(c.p, narrow, x as int, v, q)
    } else {
        if c.p & 0x08 == 0 {
            subtracted(c, narrow, v, a, q)
        } else {
            is_decimal(x as int) && is_decimal(v) ==> subtracted_in_decimal(c, narrow, v, a, q)
        }
    }
}

/// A shift, a rotation or a step by one, by the row of its opcodes: the new value
/// and flags.
pub open spec fn changed(row: int, p: u8, narrow: bool, v: int, w: int, q: u8) -> bool {
    let half = range(narrow) / 2;
    &&& 0 <= w < range(narrow)
    &&& if row == 0 {
        // ASL
        &&& w == 2 * v || w == 2 * v - range(narrow)
        &&& tells(p, q, 0x7C, narrow, w)
        &&& q & 0x01 != 0 <==> v >= half
    } else if row == 1 {
        // ROL
        &&& w == 2 * v + carry(p) || w == 2 * v + carry(p) - range(narrow)
        &&& tells(p, q, 0x7C, narrow, w)
        &&& q & 0x01 != 0 <==> v >= half
    } else if row == 2 {
        // LSR
        &&& w == v / 2
        &&& tells(p, q, 0x7C, narrow, w)
        &&& q & 0x01 != 0 <==> v % 2 == 1
    } else if row == 3 {
        // ROR
        &&& w == v / 2 + if carry(p) == 1 { half } else { 0 }
        &&& tells(p, q, 0x7C, narrow, w)
        &&& q & 0x01 != 0 <==> v % 2 == 1
    } else if row == 6 {
        // DEC
        &&& w == v - 1 || (v == 0 && w == range(narrow) - 1)
        &&& tells(p, q, 0x7D, narrow, w)
    } else {
        // INC
        &&& w == v + 1 || (v == range(narrow) - 1 && w == 0)
        &&& tells(p, q, 0x7D, narrow, w)
    }
}

} // verus!
