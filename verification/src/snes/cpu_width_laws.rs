//! Register widths: what every step of the processor keeps.

use vstd::prelude::*;

use crate::snes::address_space::AddressSpace;
use crate::snes::bus::{region, Region, SnesBus};
use crate::snes::cpu::Cpu65816;
use crate::snes::cpu_model::{
    acc_narrow, awake_step, decoded, effective, fetch_byte, flags_nz, has_flag, index_narrow,
    instr_effect, interrupted, irq_vector, jump_effect, narrowed, nmi_latched, nmi_vector,
    operand_narrow, pull, pull_byte, pull_word, pulled, push, push_byte, push_word, pushed,
    read_effect, reset_effect, sign_bound, stack_moved, stepped, tick, ticked, transferred,
    with_cpu, with_flag, with_status, Instr, Jump, Machine, Mode, ReadOp, StackReg, Transfer,
    FLAG_C, FLAG_D, FLAG_I, FLAG_M, FLAG_N, FLAG_V, FLAG_X, FLAG_Z,
};

verus! {

/// In emulation mode both registers are narrow and the stack stays in page one;
/// narrow index registers hold nothing above their low byte.
pub open spec fn widths(c: Cpu65816) -> bool {
    &&& c.emulation ==> has_flag(c.p, FLAG_M) && has_flag(c.p, FLAG_X) && 0x100 <= c.s <= 0x1FF
    &&& has_flag(c.p, FLAG_X) ==> c.x < 0x100 && c.y < 0x100
}

/// Nothing that the widths depend on differs.
spec fn same(c: Cpu65816, d: Cpu65816) -> bool {
    &&& d.emulation == c.emulation
    &&& d.x == c.x
    &&& d.y == c.y
    &&& d.s == c.s
    &&& has_flag(d.p, FLAG_X) == has_flag(c.p, FLAG_X)
    &&& has_flag(d.p, FLAG_M) == has_flag(c.p, FLAG_M)
}

proof fn lemma_bits()
    by (bit_vector)
    ensures
        forall|p: u8, m: u8|
            m & 0x30 == 0 ==> (#[trigger] (p | m)) & 0x10 == p & 0x10 && (p | m) & 0x20 == p & 0x20,
        forall|p: u8, m: u8|
            m & 0x30 == 0 ==> (#[trigger] (p & !m)) & 0x10 == p & 0x10 && (p & !m) & 0x20 == p
                & 0x20,
        forall|p: u8|
            (#[trigger] (p | (0x20u8 | 0x10u8))) & 0x10 == 0x10 && (p | (0x20u8 | 0x10u8)) & 0x20
                == 0x20,
        0x80u8 & 0x30 == 0,
        0x40u8 & 0x30 == 0,
        0x08u8 & 0x30 == 0,
        0x04u8 & 0x30 == 0,
        0x02u8 & 0x30 == 0,
        0x01u8 & 0x30 == 0,
        (0x20u8 | 0x10u8 | 0x04u8) & 0x10 == 0x10,
        (0x20u8 | 0x10u8 | 0x04u8) & 0x20 == 0x20,
{
}

/// The flags other than the two widths leave these alone.
proof fn lemma_other_flags()
    ensures
        forall|p: u8, mask: u8, on: bool|
            mask == FLAG_N || mask == FLAG_V || mask == FLAG_D || mask == FLAG_I || mask == FLAG_Z
                || mask == FLAG_C ==> has_flag(#[trigger] with_flag(p, mask, on), FLAG_X)
                == has_flag(p, FLAG_X) && has_flag(with_flag(p, mask, on), FLAG_M) == has_flag(
                p,
                FLAG_M,
            ),
{
    lemma_bits();
}

proof fn lemma_effective<B: AddressSpace>(m: Machine<B>, mode: Mode)
    ensures
        same(m.cpu, effective(m, mode).1.cpu),
        effective(m, mode).1.cpu.p == m.cpu.p,
        effective(m, mode).1.cpu.a == m.cpu.a,
{
}

proof fn lemma_stack<B: AddressSpace>(m: Machine<B>, v: u16, b: u8, narrow: bool)
    requires
        widths(m.cpu),
    ensures
        widths(push_byte(m, b).cpu),
        widths(push_word(m, v).cpu),
        widths(push(m, narrow, v).cpu),
        widths(pull_byte(m).1.cpu),
        widths(pull_word(m).1.cpu),
        widths(pull(m, narrow).1.cpu),
        push_byte(m, b).cpu.p == m.cpu.p,
        push_word(m, v).cpu.p == m.cpu.p,
        pull_byte(m).1.cpu.p == m.cpu.p,
        pull_word(m).1.cpu.p == m.cpu.p,
        pull(m, narrow).1.cpu.p == m.cpu.p,
        pull_byte(m).1.cpu.emulation == m.cpu.emulation,
        pull_word(m).1.cpu.emulation == m.cpu.emulation,
        pull(m, narrow).1.cpu.emulation == m.cpu.emulation,
        narrow ==> pull(m, narrow).0 < 0x100,
{
}

proof fn lemma_status(c: Cpu65816, val: u8)
    requires
        widths(c),
    ensures
        widths(with_status(c, val)),
        with_status(c, val).emulation == c.emulation,
{
    lemma_bits();
}

#[verifier::rlimit(40)]
proof fn lemma_read_effect(c: Cpu65816, op: ReadOp, immediate: bool, v: u16)
    requires
        widths(c),
        operand_narrow(c, op) ==> v < 0x100,
    ensures
        widths(read_effect(c, op, immediate, v)),
{
    lemma_other_flags();
}

/// Setting N and Z leaves the widths alone.
proof fn lemma_nz(p: u8, narrow: bool, v: int)
    ensures
        has_flag(flags_nz(p, narrow, v), FLAG_X) == has_flag(p, FLAG_X),
        has_flag(flags_nz(p, narrow, v), FLAG_M) == has_flag(p, FLAG_M),
{
    lemma_other_flags();
    let q = with_flag(p, FLAG_N, v >= sign_bound(narrow));
    assert(flags_nz(p, narrow, v) == with_flag(q, FLAG_Z, v == 0));
}

#[verifier::rlimit(40)]
proof fn lemma_transferred(c: Cpu65816, t: Transfer)
    requires
        widths(c),
    ensures
        widths(transferred(c, t)),
{
    let an = acc_narrow(c);
    let xn = index_narrow(c);
    match t {
        Transfer::Tax | Transfer::Tay => lemma_nz(c.p, xn, narrowed(xn, c.a) as int),
        Transfer::Txa => lemma_nz(c.p, an, narrowed(an, c.x) as int),
        Transfer::Tya => lemma_nz(c.p, an, narrowed(an, c.y) as int),
        Transfer::Tsx => lemma_nz(c.p, xn, narrowed(xn, c.s) as int),
        Transfer::Txy => lemma_nz(c.p, xn, narrowed(xn, c.x) as int),
        Transfer::Tyx => lemma_nz(c.p, xn, narrowed(xn, c.y) as int),
        Transfer::Tcd => lemma_nz(c.p, false, c.a as int),
        Transfer::Tdc => lemma_nz(c.p, false, c.d as int),
        Transfer::Tsc => lemma_nz(c.p, false, c.s as int),
        Transfer::Txs | Transfer::Tcs => {},
    }
}

#[verifier::rlimit(40)]
proof fn lemma_pulled<B: AddressSpace>(m: Machine<B>, r: StackReg)
    requires
        widths(m.cpu),
    ensures
        widths(pulled(m, r).cpu),
{
    lemma_other_flags();
    lemma_stack(m, 0, 0, acc_narrow(m.cpu));
    lemma_stack(m, 0, 0, index_narrow(m.cpu));
    let (v, m1) = pull_byte(m);
    lemma_status(m1.cpu, v);
}

#[verifier::rlimit(40)]
proof fn lemma_interrupted<B: AddressSpace>(m: Machine<B>, vector: u32)
    requires
        widths(m.cpu),
    ensures
        widths(interrupted(m, vector).cpu),
{
    lemma_other_flags();
    let m1 = if m.cpu.emulation {
        m
    } else {
        push_byte(m, m.cpu.pbr)
    };
    lemma_stack(m, 0, m.cpu.pbr, true);
    let m2 = push_word(m1, m1.cpu.pc);
    lemma_stack(m1, m1.cpu.pc, 0, true);
    lemma_stack(m2, 0, m2.cpu.p, true);
}

proof fn lemma_jump<B: AddressSpace>(m: Machine<B>, j: Jump)
    requires
        widths(m.cpu),
    ensures
        widths(jump_effect(m, j).cpu),
{
    if j is ReturnInterrupt {
        lemma_stack(m, 0, 0, true);
        let (p, m1) = pull_byte(m);
        lemma_status(m1.cpu, p);
        let m2 = with_cpu(m1, with_status(m1.cpu, p));
        lemma_stack(m2, 0, 0, true);
        let (pc, m3) = pull_word(m2);
        lemma_stack(m3, 0, 0, true);
    }
}

#[verifier::rlimit(40)]
proof fn lemma_memory_instr<B: AddressSpace>(m: Machine<B>, i: Instr)
    requires
        widths(m.cpu),
        i is Read || i is Immediate || i is Store || i is Modify || i is ModifyAcc,
    ensures
        widths(instr_effect(m, i).cpu),
{
    lemma_other_flags();
    match i {
        Instr::Read(op, mode) => {
            lemma_effective(m, mode);
            let (addr, m1) = effective(m, mode);
            let (v, m2) = crate::snes::cpu_model::load(m1, operand_narrow(m1.cpu, op), addr);
            assert(m2.cpu.p == m.cpu.p && same(m.cpu, m2.cpu));
            lemma_read_effect(m2.cpu, op, false, v);
        },
        Instr::Immediate(op) => {
            let (v, m1) = fetch_byte(m);
            let (w, m2) = crate::snes::cpu_model::fetch_word(m);
            if operand_narrow(m.cpu, op) {
                lemma_read_effect(m1.cpu, op, true, v as u16);
            } else {
                lemma_read_effect(m2.cpu, op, true, w);
            }
        },
        Instr::Store(op, mode) => {
            lemma_effective(m, mode);
        },
        Instr::Modify(op, mode) => {
            lemma_effective(m, mode);
        },
        _ => {},
    }
}

#[verifier::rlimit(40)]
proof fn lemma_register_instr<B: AddressSpace>(m: Machine<B>, i: Instr)
    requires
        widths(m.cpu),
        i is Branch || i is BranchAlways || i is BranchLong || i is Transfer || i is Count
            || i is Mask || i is ExchangeCarry || i is ExchangeBytes || i is Nop || i is Wait
            || i is Stop || i is Wdm || i is Move,
    ensures
        widths(instr_effect(m, i).cpu),
{
    lemma_other_flags();
    match i {
        Instr::Transfer(t) => lemma_transferred(m.cpu, t),
        Instr::Mask(set) => {
            let (mask, m1) = fetch_byte(m);
            lemma_status(m1.cpu, with_flag(m1.cpu.p, mask, set));
        },
        Instr::ExchangeCarry => lemma_bits(),
        _ => {},
    }
}

#[verifier::rlimit(40)]
proof fn lemma_stack_instr<B: AddressSpace>(m: Machine<B>, i: Instr)
    requires
        widths(m.cpu),
        i is Jump || i is Push || i is Pull || i is PushAbs || i is PushInd || i is PushRel
            || i is Break || i is Coprocessor,
    ensures
        widths(instr_effect(m, i).cpu),
{
    match i {
        Instr::Jump(j) => lemma_jump(m, j),
        Instr::Push(r) => {},
        Instr::Pull(r) => lemma_pulled(m, r),
        Instr::Break => lemma_interrupted(
            fetch_byte(m).1,
            if m.cpu.emulation {
                0xFFFE
            } else {
                0xFFE6
            },
        ),
        Instr::Coprocessor => lemma_interrupted(
            fetch_byte(m).1,
            if m.cpu.emulation {
                0xFFF4
            } else {
                0xFFE4
            },
        ),
        _ => {},
    }
}

/// The flag instructions name flags other than the widths.
proof fn lemma_flag_instr(op: u8)
    ensures
        decoded(op) matches Instr::Flag(mask, on) ==> mask == FLAG_C || mask == FLAG_I || mask
            == FLAG_D || mask == FLAG_V,
{
}

proof fn lemma_instr<B: AddressSpace>(m: Machine<B>, op: u8)
    requires
        widths(m.cpu),
    ensures
        widths(instr_effect(m, decoded(op)).cpu),
{
    let i = decoded(op);
    match i {
        Instr::Read(_, _) | Instr::Immediate(_) | Instr::Store(_, _) | Instr::Modify(_, _)
            | Instr::ModifyAcc(_) => lemma_memory_instr(m, i),
        Instr::Jump(_) | Instr::Push(_) | Instr::Pull(_) | Instr::PushAbs | Instr::PushInd
            | Instr::PushRel | Instr::Break | Instr::Coprocessor => lemma_stack_instr(m, i),
        Instr::Flag(mask, on) => {
            lemma_flag_instr(op);
            lemma_other_flags();
        },
        _ => lemma_register_instr(m, i),
    }
}

proof fn lemma_awake<B: AddressSpace>(m: Machine<B>)
    requires
        widths(m.cpu),
    ensures
        widths(awake_step(m).cpu),
{
    let m1 = with_cpu(m, Cpu65816 { nmi_pending: false, ..m.cpu });
    lemma_interrupted(m1, nmi_vector(m.cpu));
    lemma_interrupted(m, irq_vector(m.cpu));
    let (op, m2) = fetch_byte(m);
    lemma_instr(ticked(m2, 6), op);
}

/// Every step keeps the registers within their widths: in emulation mode the
/// stack stays in page one, and narrow index registers never show a high byte.
pub proof fn law_steps_keep_widths<B: AddressSpace>(m: Machine<B>)
    requires
        widths(m.cpu),
    ensures
        widths(stepped(m).cpu),
{
    reveal(stepped);
    let c = nmi_latched(m.cpu);
    lemma_awake(with_cpu(m, c));
    lemma_awake(with_cpu(m, tick(Cpu65816 { waiting: false, ..c }, 6)));
}

/// A reset gives registers within their widths, if the index registers have no
/// high byte.
pub proof fn law_reset_gives_widths<B: AddressSpace>(m: Machine<B>)
    requires
        m.cpu.x < 0x100,
        m.cpu.y < 0x100,
    ensures
        widths(reset_effect(m).cpu),
{
    lemma_bits();
}

// ── The stack ──

/// What was pushed on a stack in work memory is pulled again, and the processor
/// is as before.
pub proof fn law_pull_undoes_push(m: Machine<SnesBus>, v: u8)
    requires
        m.mem.wf(),
        m.cpu.s < 0x2000,
        m.cpu.emulation ==> 0x100 <= m.cpu.s <= 0x1FF,
    ensures
        pull_byte(push_byte(m, v)).0 == v,
        pull_byte(push_byte(m, v)).1.cpu == m.cpu,
{
    let s = m.cpu.s as u32;
    assert(region(s) == Region::Wram(s as int));
    let p = push_byte(m, v);
    assert(stack_moved(p.cpu, 1) == m.cpu.s);
}

/// Exchanging the bytes of the accumulator twice gives it back.
pub proof fn law_exchange_is_undone_by_itself<B: AddressSpace>(m: Machine<B>)
    ensures
        instr_effect(instr_effect(m, Instr::ExchangeBytes), Instr::ExchangeBytes).cpu.a == m.cpu.a,
{
}

} // verus!
