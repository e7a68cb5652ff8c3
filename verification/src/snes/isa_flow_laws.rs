//! Laws of the instructions that work on registers, on the stack and on the flow
//! of the program, and of interrupts and reset.

use vstd::prelude::*;

use crate::snes::address_space::AddressSpace;
use crate::snes::cpu::Cpu65816;
use crate::snes::cpu_model::{
    decoded, instr_effect, modulus, pull_byte, pull_word, push, push_byte, push_word, pushed,
    sign_bound, stack_moved, stepped, ticked, with_flag, Instr, Machine, StackReg,
};
use crate::snes::isa::{
    advanced, byte_acc, byte_index, code, code_word, fetched, from_stack, on_stack, part, range,
    ready, slot, stack_read, taken, tells, word_at, word_read,
};
use crate::snes::isa_laws::{
    begun, lemma_fetch, lemma_flag, lemma_nz, lemma_step, lemma_taken, lemma_wrapped,
};

verus! {

// ── Registers ──

/// CLC, SEC, CLI, SEI, CLD, SED and CLV each clear or set one flag and touch no
/// other.
pub proof fn law_flag_instructions<B: AddressSpace>(m: Machine<B>)
    requires
        ready(m),
        code(m, 0) == 0x18 || code(m, 0) == 0x38 || code(m, 0) == 0x58 || code(m, 0) == 0x78
            || code(m, 0) == 0xD8 || code(m, 0) == 0xF8 || code(m, 0) == 0xB8,
    ensures
        ({
            let op = code(m, 0);
            let q = stepped(m).cpu.p;
            let p = m.cpu.p;
            &&& op == 0x18 ==> q & 0xFE == p & 0xFE && q & 0x01 == 0
            &&& op == 0x38 ==> q & 0xFE == p & 0xFE && q & 0x01 != 0
            &&& op == 0x58 ==> q & 0xFB == p & 0xFB && q & 0x04 == 0
            &&& op == 0x78 ==> q & 0xFB == p & 0xFB && q & 0x04 != 0
            &&& op == 0xD8 ==> q & 0xF7 == p & 0xF7 && q & 0x08 == 0
            &&& op == 0xF8 ==> q & 0xF7 == p & 0xF7 && q & 0x08 != 0
            &&& op == 0xB8 ==> q & 0xBF == p & 0xBF && q & 0x40 == 0
            &&& stepped(m).cpu == (Cpu65816 { p: q, ..advanced(m.cpu, 1, 12) })
            &&& stepped(m).mem == fetched(m, 1)
        }),
{
    lemma_step(m);
    lemma_flag(m.cpu.p, true);
    lemma_flag(m.cpu.p, false);
}

/// TAX, TAY, TSX, TXY and TYX: an index register takes the low part of another
/// register, as wide as the index registers are, and N and Z tell of it.
pub proof fn law_transfers_to_index<B: AddressSpace>(m: Machine<B>)
    requires
        ready(m),
        code(m, 0) == 0xAA || code(m, 0) == 0xA8 || code(m, 0) == 0xBA || code(m, 0) == 0x9B
            || code(m, 0) == 0xBB,
    ensures
        ({
            let op = code(m, 0);
            let c = m.cpu;
            let narrow = byte_index(c);
            let from = if op == 0xAA || op == 0xA8 {
                c.a
            } else if op == 0xBA {
                c.s
            } else if op == 0x9B {
                c.x
            } else {
                c.y
            };
            let v = part(narrow, from);
            let r = stepped(m);
            let q = r.cpu.p;
            &&& op == 0xAA || op == 0xBA || op == 0xBB ==> r.cpu == (Cpu65816 {
                x: v as u16,
                p: q,
                ..advanced(c, 1, 12)
            })
            &&& op == 0xA8 || op == 0x9B ==> r.cpu == (Cpu65816 {
                y: v as u16,
                p: q,
                ..advanced(c, 1, 12)
            })
            &&& tells(c.p, q, 0x7D, narrow, v)
            &&& r.mem == fetched(m, 1)
        }),
{
    lemma_step(m);
    let op = code(m, 0);
    let narrow = byte_index(m.cpu);
    let from = if op == 0xAA || op == 0xA8 {
        m.cpu.a
    } else if op == 0xBA {
        m.cpu.s
    } else if op == 0x9B {
        m.cpu.x
    } else {
        m.cpu.y
    };
    let v = part(narrow, from);
    lemma_nz(m.cpu.p, v >= sign_bound(narrow), v == 0);
}

/// TXA and TYA: the accumulator takes an index register, as wide as it itself is.
pub proof fn law_transfers_to_accumulator<B: AddressSpace>(m: Machine<B>)
    requires
        ready(m),
        code(m, 0) == 0x8A || code(m, 0) == 0x98,
    ensures
        ({
            let narrow = byte_acc(m.cpu);
            let v = part(
                narrow,
                if code(m, 0) == 0x8A {
                    m.cpu.x
                } else {
                    m.cpu.y
                },
            );
            let r = stepped(m);
            &&& taken(m.cpu, narrow, v, r.cpu.a, r.cpu.p)
            &&& r.cpu == (Cpu65816 { a: r.cpu.a, p: r.cpu.p, ..advanced(m.cpu, 1, 12) })
            &&& r.mem == fetched(m, 1)
        }),
{
    lemma_step(m);
    let narrow = byte_acc(m.cpu);
    let v = part(
        narrow,
        if code(m, 0) == 0x8A {
            m.cpu.x
        } else {
            m.cpu.y
        },
    );
    lemma_taken(begun(m, 1, 6).cpu, narrow, v as u16);
}

/// TCD, TDC, TSC, TCS and TXS move all sixteen bits whatever the widths are. N and
/// Z tell of the value, except where the stack pointer takes it; and in emulation
/// mode that stays in page one.
pub proof fn law_wide_transfers<B: AddressSpace>(m: Machine<B>)
    requires
        ready(m),
        code(m, 0) == 0x5B || code(m, 0) == 0x7B || code(m, 0) == 0x3B || code(m, 0) == 0x1B
            || code(m, 0) == 0x9A,
    ensures
        ({
            let op = code(m, 0);
            let c = m.cpu;
            let r = stepped(m).cpu;
            let after = advanced(c, 1, 12);
            &&& op == 0x5B ==> r == (Cpu65816 { d: c.a, p: r.p, ..after }) && tells(
                c.p,
                r.p,
                0x7D,
                false,
                c.a as int,
            )
            &&& op == 0x7B ==> r == (Cpu65816 { a: c.d, p: r.p, ..after }) && tells(
                c.p,
                r.p,
                0x7D,
                false,
                c.d as int,
            )
            &&& op == 0x3B ==> r == (Cpu65816 { a: c.s, p: r.p, ..after }) && tells(
                c.p,
                r.p,
                0x7D,
                false,
                c.s as int,
            )
            &&& op == 0x1B && !c.emulation ==> r == (Cpu65816 { s: c.a, ..after })
            &&& op == 0x9A && !c.emulation ==> r == (Cpu65816 { s: c.x, ..after })
            &&& op == 0x1B && c.emulation ==> r == (Cpu65816 {
                s: (0x100 + c.a % 0x100) as u16,
                ..after
            })
            &&& op == 0x9A && c.emulation ==> r == (Cpu65816 {
                s: (0x100 + c.x % 0x100) as u16,
                ..after
            })
            &&& stepped(m).mem == fetched(m, 1)
        }),
{
    lemma_step(m);
    let c = m.cpu;
    lemma_nz(c.p, c.a >= 0x8000, c.a == 0);
    lemma_nz(c.p, c.d >= 0x8000, c.d == 0);
    lemma_nz(c.p, c.s >= 0x8000, c.s == 0);
}

/// INX, DEX, INY and DEY step an index register by one, round at its width.
pub proof fn law_index_steps<B: AddressSpace>(m: Machine<B>)
    requires
        ready(m),
        code(m, 0) == 0xE8 || code(m, 0) == 0xCA || code(m, 0) == 0xC8 || code(m, 0) == 0x88,
    ensures
        ({
            let op = code(m, 0);
            let narrow = byte_index(m.cpu);
            let of_x = op == 0xE8 || op == 0xCA;
            let v = part(
                narrow,
                if of_x {
                    m.cpu.x
                } else {
                    m.cpu.y
                },
            );
            let w = if op == 0xE8 || op == 0xC8 {
                if v == range(narrow) - 1 {
                    0
                } else {
                    v + 1
                }
            } else if v == 0 {
                range(narrow) - 1
            } else {
                v - 1
            };
            let r = stepped(m);
            let q = r.cpu.p;
            &&& of_x ==> r.cpu == (Cpu65816 { x: w as u16, p: q, ..advanced(m.cpu, 1, 12) })
            &&& !of_x ==> r.cpu == (Cpu65816 { y: w as u16, p: q, ..advanced(m.cpu, 1, 12) })
            &&& tells(m.cpu.p, q, 0x7D, narrow, w)
            &&& r.mem == fetched(m, 1)
        }),
{
    lemma_step(m);
    let op = code(m, 0);
    let narrow = byte_index(m.cpu);
    let v = part(
        narrow,
        if op == 0xE8 || op == 0xCA {
            m.cpu.x
        } else {
            m.cpu.y
        },
    );
    let step: int = if op == 0xE8 || op == 0xC8 {
        1
    } else {
        -1
    };
    lemma_wrapped(narrow, v + step);
    let w = (v + step) % modulus(narrow);
    lemma_nz(m.cpu.p, w >= sign_bound(narrow), w == 0);
}

pub proof fn lemma_mask(p: u8, b: u8)
    by (bit_vector)
    ensures
        (with_flag(p, b, true) | (0x20u8 | 0x10u8)) == p | b | 0x30,
        (with_flag(p, b, false) | (0x20u8 | 0x10u8)) == (p & !b) | 0x30,
        with_flag(p, b, true) == p | b,
        with_flag(p, b, false) == p & !b,
        (p | b | 0x30) & 0x10 != 0,
        ((p & !b) | 0x30) & 0x10 != 0,
        b | (0x20u8 | 0x10u8) == b | 0x30,
        (b | 0x30) & 0x10 != 0,
{
}

/// The registers with a status; in emulation mode both width flags stay set, and
/// narrow index registers lose their upper byte.
pub open spec fn with_flags(c: Cpu65816, status: u8) -> Cpu65816 {
    let q = if c.emulation {
        status | 0x30
    } else {
        status
    };
    Cpu65816 {
        p: q,
        x: if q & 0x10 != 0 {
            (c.x % 0x100) as u16
        } else {
            c.x
        },
        y: if q & 0x10 != 0 {
            (c.y % 0x100) as u16
        } else {
            c.y
        },
        ..c
    }
}

/// REP clears the flags that its byte names, SEP sets them.
pub proof fn law_rep_and_sep<B: AddressSpace>(m: Machine<B>)
    requires
        ready(m),
        code(m, 0) == 0xC2 || code(m, 0) == 0xE2,
    ensures
        stepped(m).cpu == with_flags(
            advanced(m.cpu, 2, 12),
            if code(m, 0) == 0xC2 {
                m.cpu.p & !code(m, 1)
            } else {
                m.cpu.p | code(m, 1)
            },
        ),
        stepped(m).mem == fetched(m, 2),
{
    lemma_step(m);
    lemma_fetch(m, 1, 6);
    lemma_mask(m.cpu.p, code(m, 1));
}

/// XCE exchanges the carry with the emulation mode. Entering the mode narrows the
/// registers and puts the stack into page one.
pub proof fn law_exchange_carry<B: AddressSpace>(m: Machine<B>)
    requires
        ready(m),
        code(m, 0) == 0xFB,
    ensures
        ({
            let c = m.cpu;
            let r = stepped(m).cpu;
            &&& r.emulation == (c.p & 0x01 != 0)
            &&& r.p & 0x01 != 0 <==> c.emulation
            &&& !r.emulation ==> r == (Cpu65816 {
                emulation: false,
                p: r.p,
                ..advanced(c, 1, 12)
            }) && r.p & 0xFE == c.p & 0xFE
            &&& r.emulation ==> r == (Cpu65816 {
                emulation: true,
                p: r.p,
                x: (c.x % 0x100) as u16,
                y: (c.y % 0x100) as u16,
                s: (0x100 + c.s % 0x100) as u16,
                ..advanced(c, 1, 12)
            }) && r.p & 0xCE == c.p & 0xCE && r.p & 0x30 == 0x30
            &&& stepped(m).mem == fetched(m, 1)
        }),
{
    lemma_step(m);
    lemma_flag(m.cpu.p, m.cpu.emulation);
    lemma_exchange_bits(m.cpu.p, m.cpu.emulation);
}

proof fn lemma_exchange_bits(p: u8, on: bool)
    by (bit_vector)
    ensures
        (with_flag(p, 0x01, on) | (0x20u8 | 0x10u8)) & 0xCE == p & 0xCE,
        (with_flag(p, 0x01, on) | (0x20u8 | 0x10u8)) & 0x30 == 0x30,
        ((with_flag(p, 0x01, on) | (0x20u8 | 0x10u8)) & 0x01 != 0) == on,
{
}

/// XBA exchanges the bytes of the accumulator; N and Z tell of the new low one.
pub proof fn law_exchange_bytes<B: AddressSpace>(m: Machine<B>)
    requires
        ready(m),
        code(m, 0) == 0xEB,
    ensures
        ({
            let c = m.cpu;
            let r = stepped(m).cpu;
            &&& r.a as int == 0x100 * (c.a as int % 0x100) + c.a as int / 0x100
            &&& tells(c.p, r.p, 0x7D, true, c.a as int / 0x100)
            &&& r == (Cpu65816 { a: r.a, p: r.p, ..advanced(c, 1, 12) })
            &&& stepped(m).mem == fetched(m, 1)
        }),
{
    lemma_step(m);
    let v = m.cpu.a as int / 0x100;
    lemma_nz(m.cpu.p, v >= 0x80, v == 0);
}

// ── Stack ──

proof fn lemma_slot_below(c: Cpu65816, k: int)
    ensures
        stack_moved(Cpu65816 { s: slot(c, k), ..c }, -1) == slot(c, k + 1) || k == -1,
{
    reveal(slot);
    if c.emulation {
        let s = (c.s - k) % 0x100;
        assert((0x100 + s - 1) % 0x100 == (c.s - (k + 1)) % 0x100);
    } else {
        let s = (c.s - k) % 0x1_0000;
        assert((s - 1) % 0x1_0000 == (c.s - (k + 1)) % 0x1_0000);
    }
}

proof fn lemma_slot_above(c: Cpu65816, k: int)
    ensures
        stack_moved(Cpu65816 { s: slot(c, k), ..c }, 1) == slot(c, k - 1) || k == 1,
{
    reveal(slot);
    if c.emulation {
        let s = (c.s - k) % 0x100;
        assert((0x100 + s + 1) % 0x100 == (c.s - (k - 1)) % 0x100);
    } else {
        let s = (c.s - k) % 0x1_0000;
        assert((s + 1) % 0x1_0000 == (c.s - (k - 1)) % 0x1_0000);
    }
}

pub proof fn lemma_same_slots(c: Cpu65816, d: Cpu65816)
    requires
        c.s == d.s,
        c.emulation == d.emulation,
    ensures
        forall|k: int| #[trigger] slot(c, k) == slot(d, k),
        slot(c, 0) == c.s,
{
    reveal(slot);
}

/// A machine whose stack pointer has moved.
pub open spec fn moved<B: AddressSpace>(c: Cpu65816, k: int, mem: B::State) -> Machine<B> {
    Machine { cpu: Cpu65816 { s: slot(c, k), ..c }, mem }
}

pub proof fn lemma_push_byte<B: AddressSpace>(c: Cpu65816, k: int, mem: B::State, b: u8)
    requires
        k >= 0,
    ensures
        push_byte(moved::<B>(c, k, mem), b) == moved::<B>(
            c,
            k + 1,
            on_stack::<B>(mem, c, k, b as int),
        ),
{
    lemma_slot_below(c, k);
}

pub proof fn lemma_push_word<B: AddressSpace>(c: Cpu65816, k: int, mem: B::State, v: u16)
    requires
        k >= 0,
    ensures
        push_word(moved::<B>(c, k, mem), v) == moved::<B>(
            c,
            k + 2,
            on_stack::<B>(
                on_stack::<B>(mem, c, k, v as int / 0x100),
                c,
                k + 1,
                v as int % 0x100,
            ),
        ),
{
    lemma_push_byte::<B>(c, k, mem, (v / 0x100) as u8);
    lemma_push_byte::<B>(
        c,
        k + 1,
        on_stack::<B>(mem, c, k, v as int / 0x100),
        (v % 0x100) as u8,
    );
}

pub proof fn lemma_pull_byte<B: AddressSpace>(c: Cpu65816, k: int, mem: B::State)
    requires
        k >= 0,
    ensures
        pull_byte(moved::<B>(c, -k, mem)) == (
            from_stack::<B>(mem, c, k + 1),
            moved::<B>(c, -(k + 1), stack_read::<B>(mem, c, k + 1)),
        ),
{
    lemma_slot_above(c, -k);
}

pub proof fn lemma_pull_word<B: AddressSpace>(c: Cpu65816, k: int, mem: B::State)
    requires
        k >= 0,
    ensures
        ({
            let s1 = stack_read::<B>(mem, c, k + 1);
            pull_word(moved::<B>(c, -k, mem)) == (
                (from_stack::<B>(mem, c, k + 1) + 0x100 * from_stack::<B>(s1, c, k + 2)) as u16,
                moved::<B>(c, -(k + 2), stack_read::<B>(s1, c, k + 2)),
            )
        }),
{
    lemma_pull_byte::<B>(c, k, mem);
    lemma_pull_byte::<B>(c, k + 1, stack_read::<B>(mem, c, k + 1));
}

/// PHA, PHX and PHY push a register, the high byte first where it is wide; PHP, PHB
/// and PHK push one byte, PHD two.
pub proof fn law_pushes<B: AddressSpace>(m: Machine<B>)
    requires
        ready(m),
        code(m, 0) == 0x48 || code(m, 0) == 0xDA || code(m, 0) == 0x5A || code(m, 0) == 0x08
            || code(m, 0) == 0x8B || code(m, 0) == 0x4B || code(m, 0) == 0x0B,
    ensures
        ({
            let op = code(m, 0);
            let c = m.cpu;
            let v = if op == 0x48 {
                c.a as int
            } else if op == 0xDA {
                c.x as int
            } else if op == 0x5A {
                c.y as int
            } else if op == 0x08 {
                c.p as int
            } else if op == 0x8B {
                c.dbr as int
            } else if op == 0x4B {
                c.pbr as int
            } else {
                c.d as int
            };
            let narrow = if op == 0x48 {
                byte_acc(c)
            } else if op == 0xDA || op == 0x5A {
                byte_index(c)
            } else {
                op != 0x0B
            };
            let s0 = fetched(m, 1);
            let s1 = on_stack::<B>(s0, c, 0, v / 0x100);
            if narrow {
                &&& stepped(m).cpu == (Cpu65816 { s: slot(c, 1), ..advanced(c, 1, 12) })
                &&& stepped(m).mem == on_stack::<B>(s0, c, 0, v % 0x100)
            } else {
                &&& stepped(m).cpu == (Cpu65816 { s: slot(c, 2), ..advanced(c, 1, 12) })
                &&& stepped(m).mem == on_stack::<B>(s1, c, 1, v % 0x100)
            }
        }),
{
    let op = code(m, 0);
    let c = m.cpu;
    lemma_push_decoded(op);
    if op == 0x48 {
        lemma_register_pushed(m, StackReg::A);
        lemma_pushed(m, byte_acc(c), c.a);
    } else if op == 0xDA {
        lemma_register_pushed(m, StackReg::X);
        lemma_pushed(m, byte_index(c), c.x);
    } else if op == 0x5A {
        lemma_register_pushed(m, StackReg::Y);
        lemma_pushed(m, byte_index(c), c.y);
    } else if op == 0x08 {
        lemma_register_pushed(m, StackReg::P);
        lemma_pushed(m, true, c.p as u16);
    } else if op == 0x8B {
        lemma_register_pushed(m, StackReg::Dbr);
        lemma_pushed(m, true, c.dbr as u16);
    } else if op == 0x4B {
        lemma_register_pushed(m, StackReg::Pbr);
        lemma_pushed(m, true, c.pbr as u16);
    } else {
        lemma_register_pushed(m, StackReg::D);
        lemma_pushed(m, false, c.d);
    }
}

proof fn lemma_push_decoded(op: u8)
    ensures
        op == 0x48 ==> decoded(op) == Instr::Push(StackReg::A),
        op == 0xDA ==> decoded(op) == Instr::Push(StackReg::X),
        op == 0x5A ==> decoded(op) == Instr::Push(StackReg::Y),
        op == 0x08 ==> decoded(op) == Instr::Push(StackReg::P),
        op == 0x8B ==> decoded(op) == Instr::Push(StackReg::Dbr),
        op == 0x4B ==> decoded(op) == Instr::Push(StackReg::Pbr),
        op == 0x0B ==> decoded(op) == Instr::Push(StackReg::D),
        op == 0xF4 ==> decoded(op) == Instr::PushAbs,
        op == 0xD4 ==> decoded(op) == Instr::PushInd,
        op == 0x62 ==> decoded(op) == Instr::PushRel,
{
}

/// The width and the value of what is pushed of a register.
spec fn push_form(c: Cpu65816, r: StackReg) -> (bool, u16) {
    match r {
        StackReg::A => (byte_acc(c), c.a),
        StackReg::X => (byte_index(c), c.x),
        StackReg::Y => (byte_index(c), c.y),
        StackReg::P => (true, c.p as u16),
        StackReg::Dbr => (true, c.dbr as u16),
        StackReg::D => (false, c.d),
        StackReg::Pbr => (true, c.pbr as u16),
    }
}

proof fn lemma_register_pushed<B: AddressSpace>(m: Machine<B>, r: StackReg)
    requires
        ready(m),
        decoded(code(m, 0)) == Instr::Push(r),
    ensures
        stepped(m) == ticked(
            push(begun(m, 1, 6), push_form(m.cpu, r).0, push_form(m.cpu, r).1),
            6,
        ),
{
    lemma_step(m);
    let n = begun(m, 1, 6);
    assert(instr_effect(n, Instr::Push(r)) == pushed(n, r));
}

proof fn lemma_pushed<B: AddressSpace>(m: Machine<B>, narrow: bool, v: u16)
    requires
        ready(m),
        stepped(m) == ticked(push(begun(m, 1, 6), narrow, v), 6),
    ensures
        ({
            let c = m.cpu;
            let s0 = fetched(m, 1);
            let s1 = on_stack::<B>(s0, c, 0, v as int / 0x100);
            if narrow {
                &&& stepped(m).cpu == (Cpu65816 { s: slot(c, 1), ..advanced(c, 1, 12) })
                &&& stepped(m).mem == on_stack::<B>(s0, c, 0, v as int % 0x100)
            } else {
                &&& stepped(m).cpu == (Cpu65816 { s: slot(c, 2), ..advanced(c, 1, 12) })
                &&& stepped(m).mem == on_stack::<B>(s1, c, 1, v as int % 0x100)
            }
        }),
{
    let n = begun(m, 1, 6);
    lemma_same_slots(n.cpu, m.cpu);
    lemma_push_either::<B>(n, narrow, v);
}

proof fn lemma_push_either<B: AddressSpace>(n: Machine<B>, narrow: bool, v: u16)
    ensures
        push(n, narrow, v) == if narrow {
            moved::<B>(n.cpu, 1, on_stack::<B>(n.mem, n.cpu, 0, v as int % 0x100))
        } else {
            moved::<B>(
                n.cpu,
                2,
                on_stack::<B>(
                    on_stack::<B>(n.mem, n.cpu, 0, v as int / 0x100),
                    n.cpu,
                    1,
                    v as int % 0x100,
                ),
            )
        },
{
    lemma_same_slots(n.cpu, n.cpu);
    assert(n == moved::<B>(n.cpu, 0, n.mem));
    lemma_push_byte::<B>(n.cpu, 0, n.mem, (v % 0x100) as u8);
    lemma_push_word::<B>(n.cpu, 0, n.mem, v);
}

/// PEA, PEI and PER push two bytes: those after the opcode, those that they point
/// to in the direct page, or the address that they lead to from the next
/// instruction on.
pub proof fn law_effective_pushes<B: AddressSpace>(m: Machine<B>)
    requires
        ready(m),
        code(m, 0) == 0xF4 || code(m, 0) == 0xD4 || code(m, 0) == 0x62,
    ensures
        ({
            let op = code(m, 0);
            let c = m.cpu;
            let at = ((c.d + code(m, 1)) % 0x1_0000) as u32;
            let bytes = if op == 0xD4 {
                2
            } else {
                3int
            };
            let v = if op == 0xF4 {
                code_word(m)
            } else if op == 0xD4 {
                word_at::<B>(fetched(m, 2), at)
            } else {
                (c.pc + 3 + code_word(m)) % 0x1_0000
            };
            let s0 = if op == 0xD4 {
                word_read::<B>(fetched(m, 2), at)
            } else {
                fetched(m, 3)
            };
            let s1 = on_stack::<B>(s0, c, 0, v / 0x100);
            &&& stepped(m).cpu == (Cpu65816 { s: slot(c, 2), ..advanced(c, bytes, 6) })
            &&& stepped(m).mem == on_stack::<B>(s1, c, 1, v % 0x100)
        }),
{
    let op = code(m, 0);
    let at = ((m.cpu.d + code(m, 1)) % 0x1_0000) as u32;
    let n2 = begun(m, 2, 6);
    let n3 = begun(m, 3, 6);
    lemma_push_decoded(op);
    if op == 0xD4 {
        lemma_pointed_pushed(m);
        lemma_same_slots(n2.cpu, m.cpu);
        let n = Machine::<B> { cpu: n2.cpu, mem: word_read::<B>(n2.mem, at) };
        lemma_push_either::<B>(n, false, word_at::<B>(n2.mem, at) as u16);
    } else {
        let v = if op == 0xF4 {
            code_word(m) as u16
        } else {
            ((m.cpu.pc + 3 + code_word(m)) % 0x1_0000) as u16
        };
        lemma_word_pushed(m);
        lemma_same_slots(n3.cpu, m.cpu);
        lemma_push_either::<B>(n3, false, v);
    }
}

proof fn lemma_pointed_pushed<B: AddressSpace>(m: Machine<B>)
    requires
        ready(m),
        decoded(code(m, 0)) == Instr::PushInd,
    ensures
        ({
            let at = ((m.cpu.d + code(m, 1)) % 0x1_0000) as u32;
            let n2 = begun(m, 2, 6);
            stepped(m) == push(
                Machine::<B> { cpu: n2.cpu, mem: word_read::<B>(n2.mem, at) },
                false,
                word_at::<B>(n2.mem, at) as u16,
            )
        }),
{
    lemma_step(m);
    lemma_fetch(m, 1, 6);
}

proof fn lemma_word_pushed<B: AddressSpace>(m: Machine<B>)
    requires
        ready(m),
        decoded(code(m, 0)) == Instr::PushAbs || decoded(code(m, 0)) == Instr::PushRel,
    ensures
        stepped(m) == push(
            begun(m, 3, 6),
            false,
            if decoded(code(m, 0)) == Instr::PushAbs {
                code_word(m) as u16
            } else {
                ((m.cpu.pc + 3 + code_word(m)) % 0x1_0000) as u16
            },
        ),
{
    lemma_step(m);
    lemma_fetch(m, 1, 6);
    lemma_fetch(m, 2, 6);
    let pc = (m.cpu.pc + 3) % 0x1_0000;
    assert((pc + code_word(m)) % 0x1_0000 == (m.cpu.pc + 3 + code_word(m)) % 0x1_0000);
}

/// PLA, PLX, PLY, PLB and PLD pull a register, the low byte first where it is wide,
/// and N and Z tell of it.
pub proof fn law_pulls<B: AddressSpace>(m: Machine<B>)
    requires
        ready(m),
        code(m, 0) == 0x68 || code(m, 0) == 0xFA || code(m, 0) == 0x7A || code(m, 0) == 0xAB
            || code(m, 0) == 0x2B,
    ensures
        ({
            let op = code(m, 0);
            let c = m.cpu;
            let narrow = if op == 0x68 {
                byte_acc(c)
            } else if op == 0xFA || op == 0x7A {
                byte_index(c)
            } else {
                op == 0xAB
            };
            let s0 = fetched(m, 1);
            let s1 = stack_read::<B>(s0, c, 1);
            let low = from_stack::<B>(s0, c, 1) as int;
            let v = if narrow {
                low
            } else {
                low + 0x100 * from_stack::<B>(s1, c, 2)
            };
            let r = stepped(m).cpu;
            let after = Cpu65816 {
                s: slot(
                    c,
                    if narrow {
                        -1
                    } else {
                        -2
                    },
                ),
                p: r.p,
                ..advanced(c, 1, 18)
            };
            &&& stepped(m).mem == if narrow {
                s1
            } else {
                stack_read::<B>(s1, c, 2)
            }
            &&& tells(c.p, r.p, 0x7D, narrow, v)
            &&& op == 0x68 ==> taken(c, narrow, v, r.a, r.p) && r == (Cpu65816 { a: r.a, ..after })
            &&& op == 0xFA ==> r == (Cpu65816 { x: v as u16, ..after })
            &&& op == 0x7A ==> r == (Cpu65816 { y: v as u16, ..after })
            &&& op == 0xAB ==> r == (Cpu65816 { dbr: v as u8, ..after })
            &&& op == 0x2B ==> r == (Cpu65816 { d: v as u16, ..after })
        }),
{
    lemma_step(m);
    let n = begun(m, 1, 6);
    lemma_same_slots(n.cpu, m.cpu);
    assert(moved::<B>(n.cpu, 0, n.mem) == n);
    lemma_pull_byte::<B>(n.cpu, 0, n.mem);
    lemma_pull_word::<B>(n.cpu, 0, n.mem);
    let op = code(m, 0);
    let c = m.cpu;
    let narrow = if op == 0x68 {
        byte_acc(c)
    } else if op == 0xFA || op == 0x7A {
        byte_index(c)
    } else {
        op == 0xAB
    };
    let s0 = fetched(m, 1);
    let s1 = stack_read::<B>(s0, c, 1);
    let low = from_stack::<B>(s0, c, 1) as int;
    let v = if narrow {
        low
    } else {
        low + 0x100 * from_stack::<B>(s1, c, 2)
    };
    lemma_nz(c.p, v >= sign_bound(narrow), v == 0);
    lemma_taken(c, narrow, v as u16);
}

/// PLP pulls the status.
pub proof fn law_status_is_pulled<B: AddressSpace>(m: Machine<B>)
    requires
        ready(m),
        code(m, 0) == 0x28,
    ensures
        ({
            let s0 = fetched(m, 1);
            let after = Cpu65816 { s: slot(m.cpu, -1), ..advanced(m.cpu, 1, 18) };
            &&& stepped(m).cpu == with_flags(after, from_stack::<B>(s0, m.cpu, 1))
            &&& stepped(m).mem == stack_read::<B>(s0, m.cpu, 1)
        }),
{
    lemma_step(m);
    let n = begun(m, 1, 6);
    lemma_same_slots(n.cpu, m.cpu);
    assert(moved::<B>(n.cpu, 0, n.mem) == n);
    lemma_pull_byte::<B>(n.cpu, 0, n.mem);
    let b = from_stack::<B>(fetched(m, 1), m.cpu, 1);
    lemma_mask(m.cpu.p, b);
}

} // verus!
