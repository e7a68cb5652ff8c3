//! Laws of jumps, calls, returns and block moves, and of interrupts, halts and
//! reset.

use vstd::prelude::*;

use crate::snes::address_space::AddressSpace;
use crate::snes::cpu::Cpu65816;
use crate::snes::cpu_model::{
    decoded, interrupted, reset_effect, stepped, ticked, with_flag, with_status, Instr, Jump,
    Machine,
};
use crate::snes::isa::{
    advanced, byte_index, code, code_word, fetched, from_stack, on_stack, part, range, ready, slot,
    stack_read, word_at, word_read,
};
use crate::snes::isa_flow_laws::{
    lemma_mask, lemma_pull_byte, lemma_pull_word, lemma_push_byte, lemma_push_word,
    lemma_same_slots, moved, with_flags,
};
use crate::snes::isa_laws::{begun, lemma_fetch, lemma_step, lemma_wrapped};

verus! {

// ── Jumps ──

proof fn lemma_jump_decoded(op: u8)
    ensures
        op == 0x4C ==> decoded(op) == Instr::Jump(Jump::Abs),
        op == 0x6C ==> decoded(op) == Instr::Jump(Jump::AbsInd),
        op == 0x7C ==> decoded(op) == Instr::Jump(Jump::AbsXInd),
        op == 0x5C ==> decoded(op) == Instr::Jump(Jump::Long),
        op == 0xDC ==> decoded(op) == Instr::Jump(Jump::LongInd),
        op == 0x20 ==> decoded(op) == Instr::Jump(Jump::Call),
        op == 0xFC ==> decoded(op) == Instr::Jump(Jump::CallXInd),
        op == 0x22 ==> decoded(op) == Instr::Jump(Jump::CallLong),
        op == 0x60 ==> decoded(op) == Instr::Jump(Jump::Return),
        op == 0x6B ==> decoded(op) == Instr::Jump(Jump::ReturnLong),
        op == 0x40 ==> decoded(op) == Instr::Jump(Jump::ReturnInterrupt),
{
}

/// JMP and JML go on at the address after the opcode, or at the one that is read
/// there: `(abs)` and `[abs]` in bank zero, `(abs,X)` in the program's bank.
pub proof fn law_jumps<B: AddressSpace>(m: Machine<B>)
    requires
        ready(m),
        code(m, 0) == 0x4C || code(m, 0) == 0x6C || code(m, 0) == 0x7C || code(m, 0) == 0x5C
            || code(m, 0) == 0xDC,
    ensures
        ({
            let op = code(m, 0);
            let c = m.cpu;
            let a = code_word(m);
            let s3 = fetched(m, 3);
            let ax = (0x1_0000 * c.pbr + (a + c.x) % 0x1_0000) as u32;
            let s5 = word_read::<B>(s3, a as u32);
            let r = stepped(m);
            &&& op == 0x4C ==> r.mem == s3 && r.cpu == (Cpu65816 {
                pc: a as u16,
                ..advanced(c, 0, 6)
            })
            &&& op == 0x6C ==> r.mem == s5 && r.cpu == (Cpu65816 {
                pc: word_at::<B>(s3, a as u32) as u16,
                ..advanced(c, 0, 6)
            })
            &&& op == 0x7C ==> r.mem == word_read::<B>(s3, ax) && r.cpu == (Cpu65816 {
                pc: word_at::<B>(s3, ax) as u16,
                ..advanced(c, 0, 6)
            })
            &&& op == 0x5C ==> r.mem == fetched(m, 4) && r.cpu == (Cpu65816 {
                pc: a as u16,
                pbr: code(m, 3),
                ..advanced(c, 0, 6)
            })
            &&& op == 0xDC ==> r.mem == B::after_read(s5, (a + 2) as u32) && r.cpu == (Cpu65816 {
                pc: word_at::<B>(s3, a as u32) as u16,
                pbr: B::peek(s5, (a + 2) as u32),
                ..advanced(c, 0, 6)
            })
        }),
{
    lemma_jump_decoded(code(m, 0));
    lemma_step(m);
    lemma_fetch(m, 1, 6);
    lemma_fetch(m, 2, 6);
    lemma_fetch(m, 3, 6);
}

/// JSR, JSR `(abs,X)` and JSL push the address of their own last byte, JSL its bank
/// first, and go on where they say.
pub proof fn law_calls<B: AddressSpace>(m: Machine<B>)
    requires
        ready(m),
        code(m, 0) == 0x20 || code(m, 0) == 0xFC || code(m, 0) == 0x22,
    ensures
        ({
            let op = code(m, 0);
            let c = m.cpu;
            let a = code_word(m);
            let back = (c.pc + 2) % 0x1_0000;
            let back_long = (c.pc + 3) % 0x1_0000;
            let s = on_stack::<B>(
                on_stack::<B>(fetched(m, 3), c, 0, back / 0x100),
                c,
                1,
                back % 0x100,
            );
            let l = on_stack::<B>(
                on_stack::<B>(
                    on_stack::<B>(fetched(m, 4), c, 0, c.pbr as int),
                    c,
                    1,
                    back_long / 0x100,
                ),
                c,
                2,
                back_long % 0x100,
            );
            let ax = (0x1_0000 * c.pbr + (a + c.x) % 0x1_0000) as u32;
            let r = stepped(m);
            &&& op == 0x20 ==> r.mem == s && r.cpu == (Cpu65816 {
                pc: a as u16,
                s: slot(c, 2),
                ..advanced(c, 0, 12)
            })
            &&& op == 0xFC ==> r.mem == word_read::<B>(s, ax) && r.cpu == (Cpu65816 {
                pc: word_at::<B>(s, ax) as u16,
                s: slot(c, 2),
                ..advanced(c, 0, 12)
            })
            &&& op == 0x22 ==> r.mem == l && r.cpu == (Cpu65816 {
                pc: a as u16,
                pbr: code(m, 3),
                s: slot(c, 3),
                ..advanced(c, 0, 12)
            })
        }),
{
    let op = code(m, 0);
    lemma_jump_decoded(op);
    lemma_step(m);
    lemma_fetch(m, 1, 6);
    lemma_fetch(m, 2, 6);
    let n = begun(m, 3, 6);
    let back = ((m.cpu.pc + 2) % 0x1_0000) as u16;
    assert(((m.cpu.pc + 3) % 0x1_0000 - 1) % 0x1_0000 == (m.cpu.pc + 2) % 0x1_0000);
    lemma_same_slots(n.cpu, m.cpu);
    if op == 0x22 {
        lemma_fetch(m, 3, 6);
        let k = begun(m, 4, 6);
        lemma_same_slots(k.cpu, m.cpu);
        assert(moved::<B>(k.cpu, 0, k.mem) == k);
        let back_long = ((m.cpu.pc + 3) % 0x1_0000) as u16;
        assert(((m.cpu.pc + 4) % 0x1_0000 - 1) % 0x1_0000 == (m.cpu.pc + 3) % 0x1_0000);
        lemma_push_byte::<B>(k.cpu, 0, k.mem, k.cpu.pbr);
        lemma_push_word::<B>(
            k.cpu,
            1,
            on_stack::<B>(k.mem, k.cpu, 0, k.cpu.pbr as int),
            back_long,
        );
    } else {
        assert(moved::<B>(n.cpu, 0, n.mem) == n);
        lemma_push_word::<B>(n.cpu, 0, n.mem, back);
    }
}

/// RTS and RTL go on behind the address that they pull, RTL in the bank that it
/// pulls too: so a call comes back to the instruction after it.
pub proof fn law_returns<B: AddressSpace>(m: Machine<B>)
    requires
        ready(m),
        code(m, 0) == 0x60 || code(m, 0) == 0x6B,
    ensures
        ({
            let op = code(m, 0);
            let c = m.cpu;
            let s0 = fetched(m, 1);
            let s1 = stack_read::<B>(s0, c, 1);
            let s2 = stack_read::<B>(s1, c, 2);
            let a = from_stack::<B>(s0, c, 1) + 0x100 * from_stack::<B>(s1, c, 2);
            let r = stepped(m);
            &&& op == 0x60 ==> r.mem == s2 && r.cpu == (Cpu65816 {
                pc: ((a + 1) % 0x1_0000) as u16,
                s: slot(c, -2),
                ..advanced(c, 0, 24)
            })
            &&& op == 0x6B ==> r.mem == stack_read::<B>(s2, c, 3) && r.cpu == (Cpu65816 {
                pc: ((a + 1) % 0x1_0000) as u16,
                pbr: from_stack::<B>(s2, c, 3),
                s: slot(c, -3),
                ..advanced(c, 0, 18)
            })
        }),
{
    let op = code(m, 0);
    lemma_jump_decoded(op);
    lemma_step(m);
    let n = begun(m, 1, 6);
    let c = n.cpu;
    lemma_same_slots(c, m.cpu);
    assert(moved::<B>(c, 0, n.mem) == n);
    lemma_pull_word::<B>(c, 0, n.mem);
    let s2 = stack_read::<B>(stack_read::<B>(n.mem, c, 1), c, 2);
    lemma_pull_byte::<B>(c, 2, s2);
}

/// RTI pulls the status, then the address, and in native mode the bank.
pub proof fn law_return_from_interrupt<B: AddressSpace>(m: Machine<B>)
    requires
        ready(m),
        code(m, 0) == 0x40,
    ensures
        ({
            let c = m.cpu;
            let s0 = fetched(m, 1);
            let s1 = stack_read::<B>(s0, c, 1);
            let s2 = stack_read::<B>(s1, c, 2);
            let s3 = stack_read::<B>(s2, c, 3);
            let a = from_stack::<B>(s1, c, 2) + 0x100 * from_stack::<B>(s2, c, 3);
            let after = with_flags(advanced(c, 0, 18), from_stack::<B>(s0, c, 1));
            let r = stepped(m);
            if c.emulation {
                &&& r.mem == s3
                &&& r.cpu == (Cpu65816 { pc: a as u16, s: slot(c, -3), ..after })
            } else {
                &&& r.mem == stack_read::<B>(s3, c, 4)
                &&& r.cpu == (Cpu65816 {
                    pc: a as u16,
                    pbr: from_stack::<B>(s3, c, 4),
                    s: slot(c, -4),
                    ..after
                })
            }
        }),
{
    lemma_jump_decoded(code(m, 0));
    lemma_step(m);
    let n = begun(m, 1, 6);
    let c = n.cpu;
    lemma_same_slots(c, m.cpu);
    assert(moved::<B>(c, 0, n.mem) == n);
    lemma_pull_byte::<B>(c, 0, n.mem);
    let b = from_stack::<B>(n.mem, c, 1);
    let s1 = stack_read::<B>(n.mem, c, 1);
    lemma_mask(c.p, b);
    let d = with_status(c, b);
    assert(with_status(Cpu65816 { s: slot(c, -1), ..c }, b) == (Cpu65816 { s: slot(c, -1), ..d }));
    lemma_same_slots(d, c);
    assert(slot(d, -1) == slot(c, -1));
    lemma_pull_word::<B>(d, 1, s1);
    let s3 = stack_read::<B>(stack_read::<B>(s1, d, 2), d, 3);
    lemma_pull_byte::<B>(d, 3, s3);
}

/// MVN and MVP move one byte from bank and X to bank and Y, up or down, and run
/// again until the accumulator, which counts them, has passed zero.
pub proof fn law_block_moves<B: AddressSpace>(m: Machine<B>)
    requires
        ready(m),
        code(m, 0) == 0x54 || code(m, 0) == 0x44,
    ensures
        ({
            let c = m.cpu;
            let narrow = byte_index(c);
            let from = (0x1_0000 * code(m, 2) + c.x) as u32;
            let to = (0x1_0000 * code(m, 1) + c.y) as u32;
            let s3 = fetched(m, 3);
            let step: int = if code(m, 0) == 0x54 {
                1
            } else {
                -1
            };
            let last = c.a == 0;
            let r = stepped(m);
            &&& r.mem == B::after_write(B::after_read(s3, from), to, B::peek(s3, from))
            &&& r.cpu == (Cpu65816 {
                a: if last {
                    0xFFFF
                } else {
                    (c.a - 1) as u16
                },
                x: r.cpu.x,
                y: r.cpu.y,
                dbr: code(m, 1),
                ..advanced(
                    c,
                    if last {
                        3
                    } else {
                        0
                    },
                    12,
                )
            })
            &&& (r.cpu.x - part(narrow, c.x) - step) % range(narrow) == 0
            &&& (r.cpu.y - part(narrow, c.y) - step) % range(narrow) == 0
            &&& 0 <= r.cpu.x < range(narrow)
            &&& 0 <= r.cpu.y < range(narrow)
        }),
{
    lemma_step(m);
    lemma_fetch(m, 1, 6);
    lemma_fetch(m, 2, 6);
    let c = m.cpu;
    let narrow = byte_index(c);
    let step: int = if code(m, 0) == 0x54 {
        1
    } else {
        -1
    };
    assert(((c.pc + 3) % 0x1_0000 - 3) % 0x1_0000 == c.pc);
    assert((c.a - 1) % 0x1_0000 == if c.a == 0 {
        0xFFFF
    } else {
        c.a - 1
    });
    lemma_wrapped(narrow, part(narrow, c.x) + step);
    lemma_wrapped(narrow, part(narrow, c.y) + step);
    let r = stepped(m);
    let dx = r.cpu.x - part(narrow, c.x) - step;
    let dy = r.cpu.y - part(narrow, c.y) - step;
    if narrow {
        assert(dx == 0 || dx == 0x100 || dx == -0x100);
        assert(dy == 0 || dy == 0x100 || dy == -0x100);
    } else {
        assert(dx == 0 || dx == 0x1_0000 || dx == -0x1_0000);
        assert(dy == 0 || dy == 0x1_0000 || dy == -0x1_0000);
    }
}

// ── Halts ──

/// NOP does nothing, WDM skips a byte, WAI waits and STP stops.
pub proof fn law_idle_instructions<B: AddressSpace>(m: Machine<B>)
    requires
        ready(m),
        code(m, 0) == 0xEA || code(m, 0) == 0x42 || code(m, 0) == 0xCB || code(m, 0) == 0xDB,
    ensures
        ({
            let op = code(m, 0);
            let r = stepped(m);
            &&& op == 0xEA ==> r.cpu == advanced(m.cpu, 1, 12) && r.mem == fetched(m, 1)
            &&& op == 0x42 ==> r.cpu == advanced(m.cpu, 2, 6) && r.mem == fetched(m, 2)
            &&& op == 0xCB ==> r.cpu == (Cpu65816 { waiting: true, ..advanced(m.cpu, 1, 6) })
                && r.mem == fetched(m, 1)
            &&& op == 0xDB ==> r.cpu == (Cpu65816 { stopped: true, ..advanced(m.cpu, 1, 6) })
                && r.mem == fetched(m, 1)
        }),
{
    lemma_step(m);
    lemma_fetch(m, 1, 6);
}

/// A processor that waits does nothing but let time pass until an interrupt comes,
/// and one that has stopped not even that.
pub proof fn law_halted_steps<B: AddressSpace>(m: Machine<B>)
    requires
        m.cpu.cycles <= u64::MAX - 60,
    ensures
        m.cpu.stopped && !m.cpu.waiting ==> stepped(m).mem == m.mem && stepped(m).cpu.pc == m.cpu.pc
            && stepped(m).cpu.stopped && stepped(m).cpu.cycles == m.cpu.cycles + 6,
        m.cpu.waiting && !m.cpu.nmi_pending && !(m.cpu.nmi_line && !m.cpu.nmi_prev) && !(
        m.cpu.irq_line && m.cpu.p & 0x04 == 0) ==> stepped(m).mem == m.mem && stepped(m).cpu
            == advanced(m.cpu, 0, 6),
{
    reveal(stepped);
}

// ── Interrupts ──

proof fn lemma_masked(p: u8)
    by (bit_vector)
    ensures
        with_flag(with_flag(p, 0x04, true), 0x08, false) & 0xF3 == p & 0xF3,
        with_flag(with_flag(p, 0x04, true), 0x08, false) & 0x04 != 0,
        with_flag(with_flag(p, 0x04, true), 0x08, false) & 0x08 == 0,
{
}

/// Memory after an interrupt has pushed where it came from: in native mode the
/// bank, and in any mode the address and the status.
pub open spec fn remembered<B: AddressSpace>(s: B::State, c: Cpu65816, pc: int) -> B::State {
    let k: int = if c.emulation {
        0
    } else {
        1
    };
    let s1 = if c.emulation {
        s
    } else {
        on_stack::<B>(s, c, 0, c.pbr as int)
    };
    on_stack::<B>(
        on_stack::<B>(on_stack::<B>(s1, c, k, pc / 0x100), c, k + 1, pc % 0x100),
        c,
        k + 2,
        c.p as int,
    )
}

/// What an interrupt leaves: the program goes on in bank zero where the vector
/// points, with I set and D clear, and can come back.
pub open spec fn serves<B: AddressSpace>(
    s: B::State,
    c: Cpu65816,
    vector: u32,
    r: Machine<B>,
) -> bool {
    let pushed = remembered::<B>(s, c, c.pc as int);
    &&& r.cpu == (Cpu65816 {
        pc: word_at::<B>(pushed, vector) as u16,
        pbr: 0,
        p: r.cpu.p,
        s: slot(
            c,
            if c.emulation {
                3
            } else {
                4
            },
        ),
        ..c
    })
    &&& r.cpu.p & 0xF3 == c.p & 0xF3
    &&& r.cpu.p & 0x04 != 0
    &&& r.cpu.p & 0x08 == 0
    &&& r.mem == word_read::<B>(pushed, vector)
}

proof fn lemma_interrupted<B: AddressSpace>(n: Machine<B>, vector: u32)
    ensures
        serves::<B>(n.mem, n.cpu, vector, interrupted(n, vector)),
{
    let c = n.cpu;
    lemma_same_slots(c, c);
    lemma_masked(c.p);
    assert(moved::<B>(c, 0, n.mem) == n);
    if c.emulation {
        lemma_push_word::<B>(c, 0, n.mem, c.pc);
        let s1 = on_stack::<B>(
            on_stack::<B>(n.mem, c, 0, c.pc as int / 0x100),
            c,
            1,
            c.pc as int % 0x100,
        );
        lemma_push_byte::<B>(c, 2, s1, c.p);
    } else {
        lemma_push_byte::<B>(c, 0, n.mem, c.pbr);
        let s0 = on_stack::<B>(n.mem, c, 0, c.pbr as int);
        lemma_push_word::<B>(c, 1, s0, c.pc);
        let s1 = on_stack::<B>(
            on_stack::<B>(s0, c, 1, c.pc as int / 0x100),
            c,
            2,
            c.pc as int % 0x100,
        );
        lemma_push_byte::<B>(c, 3, s1, c.p);
    }
}

/// BRK and COP skip a byte and are served through their vectors.
pub proof fn law_software_interrupts<B: AddressSpace>(m: Machine<B>)
    requires
        ready(m),
        code(m, 0) == 0x00 || code(m, 0) == 0x02,
    ensures
        serves::<B>(
            fetched(m, 2),
            advanced(m.cpu, 2, 6),
            if code(m, 0) == 0x00 {
                if m.cpu.emulation {
                    0xFFFE
                } else {
                    0xFFE6
                }
            } else if m.cpu.emulation {
                0xFFF4
            } else {
                0xFFE4
            },
            stepped(m),
        ),
{
    lemma_step(m);
    lemma_fetch(m, 1, 6);
    let n = begun(m, 2, 6);
    lemma_interrupted(n, 0xFFFE);
    lemma_interrupted(n, 0xFFE6);
    lemma_interrupted(n, 0xFFF4);
    lemma_interrupted(n, 0xFFE4);
}

/// A rising edge of the NMI line is served before the next instruction, once, even
/// if I is set; the IRQ line is served as long as it is high and I is clear. Either
/// wakes a processor that waits, six cycles later, and neither one that has
/// stopped.
pub proof fn law_interrupt_lines<B: AddressSpace>(m: Machine<B>)
    requires
        !m.cpu.stopped,
        m.cpu.cycles <= u64::MAX - 60,
    ensures
        ({
            let c = m.cpu;
            let nmi = c.nmi_pending || (c.nmi_line && !c.nmi_prev);
            let irq = c.irq_line && c.p & 0x04 == 0;
            let time: int = if c.waiting {
                48
            } else {
                42
            };
            let before = Cpu65816 { waiting: false, nmi_pending: false, ..advanced(c, 0, time) };
            &&& nmi ==> serves::<B>(
                m.mem,
                before,
                if c.emulation {
                    0xFFFA
                } else {
                    0xFFEA
                },
                stepped(m),
            )
            &&& !nmi && irq ==> serves::<B>(
                m.mem,
                before,
                if c.emulation {
                    0xFFFE
                } else {
                    0xFFEE
                },
                stepped(m),
            )
        }),
{
    reveal(stepped);
    let c = m.cpu;
    let nmi = c.nmi_pending || (c.nmi_line && !c.nmi_prev);
    let irq = c.irq_line && c.p & 0x04 == 0;
    let late: int = if c.waiting {
        6
    } else {
        0
    };
    let n = Machine::<B> {
        cpu: Cpu65816 { waiting: false, nmi_pending: false, ..advanced(c, 0, late) },
        mem: m.mem,
    };
    let vector: u32 = if nmi {
        if c.emulation {
            0xFFFA
        } else {
            0xFFEA
        }
    } else if c.emulation {
        0xFFFE
    } else {
        0xFFEE
    };
    if nmi || irq {
        lemma_interrupted(n, vector);
        assert(stepped(m) == ticked(interrupted(n, vector), 42));
        lemma_same_slots(
            n.cpu,
            Cpu65816 { waiting: false, nmi_pending: false, ..advanced(c, 0, late + 42) },
        );
    }
}

/// Reset starts in emulation mode at the address in the last vector but one, with
/// narrow registers, interrupts masked, an empty stack and everything in bank zero.
pub proof fn law_reset<B: AddressSpace>(m: Machine<B>)
    ensures
        ({
            let r = reset_effect(m);
            &&& r.cpu.pc as int == word_at::<B>(m.mem, 0xFFFC)
            &&& r.mem == word_read::<B>(m.mem, 0xFFFC)
            &&& r.cpu.emulation
            &&& r.cpu.p == 0x34
            &&& r.cpu.s == 0x01FF
            &&& r.cpu.d == 0 && r.cpu.pbr == 0 && r.cpu.dbr == 0
            &&& !r.cpu.stopped && !r.cpu.waiting
            &&& r.cpu.cycles == 0
        }),
{
    assert(0x20u8 | 0x10u8 | 0x04u8 == 0x34u8) by (bit_vector);
}

} // verus!
