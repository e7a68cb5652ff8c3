//! Cycle accounting: every step of the processor advances its cycle counter
//! by a bounded, positive amount.

use vstd::prelude::*;

use crate::snes::address_space::AddressSpace;
use crate::snes::cpu::Cpu65816;
use crate::snes::cpu_model::{
    awake_step, decoded, effective, fetch_byte, instr_effect, jump_effect, nmi_latched, stepped,
    tick, ticked, with_cpu, Instr, Jump, Machine, Mode, MAX_STEP_CYCLES,
};

verus! {

proof fn lemma_effective_cycles<B: AddressSpace>(m: Machine<B>, mode: Mode)
    requires
        m.cpu.cycles + 18 <= u64::MAX,
    ensures
        m.cpu.cycles + 6 <= effective(m, mode).1.cpu.cycles <= m.cpu.cycles + 18,
{
}

proof fn lemma_jump_cycles<B: AddressSpace>(m: Machine<B>, j: Jump)
    requires
        m.cpu.cycles + 18 <= u64::MAX,
    ensures
        m.cpu.cycles <= jump_effect(m, j).cpu.cycles <= m.cpu.cycles + 18,
{
}

proof fn lemma_read_cycles<B: AddressSpace>(m: Machine<B>, i: Instr)
    requires
        m.cpu.cycles + 24 <= u64::MAX,
        i is Read,
    ensures
        m.cpu.cycles <= instr_effect(m, i).cpu.cycles <= m.cpu.cycles + 24,
{
    lemma_effective_cycles(m, i->Read_1);
}

proof fn lemma_store_cycles<B: AddressSpace>(m: Machine<B>, i: Instr)
    requires
        m.cpu.cycles + 24 <= u64::MAX,
        i is Store,
    ensures
        m.cpu.cycles <= instr_effect(m, i).cpu.cycles <= m.cpu.cycles + 24,
{
    lemma_effective_cycles(m, i->Store_1);
}

proof fn lemma_modify_cycles<B: AddressSpace>(m: Machine<B>, i: Instr)
    requires
        m.cpu.cycles + 24 <= u64::MAX,
        i is Modify,
    ensures
        m.cpu.cycles <= instr_effect(m, i).cpu.cycles <= m.cpu.cycles + 24,
{
    lemma_effective_cycles(m, i->Modify_1);
}

proof fn lemma_operand_cycles<B: AddressSpace>(m: Machine<B>, i: Instr)
    requires
        m.cpu.cycles + 24 <= u64::MAX,
        i is Immediate || i is ModifyAcc,
    ensures
        m.cpu.cycles <= instr_effect(m, i).cpu.cycles <= m.cpu.cycles + 24,
{
}

proof fn lemma_flow_cycles<B: AddressSpace>(m: Machine<B>, i: Instr)
    requires
        m.cpu.cycles + 24 <= u64::MAX,
        i is Branch || i is BranchAlways || i is BranchLong || i is Jump,
    ensures
        m.cpu.cycles <= instr_effect(m, i).cpu.cycles <= m.cpu.cycles + 24,
{
    if i is Jump {
        lemma_jump_cycles(m, i->Jump_0);
    }
}

proof fn lemma_register_cycles<B: AddressSpace>(m: Machine<B>, i: Instr)
    requires
        m.cpu.cycles + 24 <= u64::MAX,
        i is Flag || i is Transfer || i is Count || i is Mask || i is ExchangeCarry || i is ExchangeBytes,
    ensures
        m.cpu.cycles <= instr_effect(m, i).cpu.cycles <= m.cpu.cycles + 24,
{
}

proof fn lemma_push_cycles<B: AddressSpace>(m: Machine<B>, i: Instr)
    requires
        m.cpu.cycles + 24 <= u64::MAX,
        i is Push || i is PushAbs || i is PushInd || i is PushRel,
    ensures
        m.cpu.cycles <= instr_effect(m, i).cpu.cycles <= m.cpu.cycles + 24,
{
}

proof fn lemma_pull_cycles<B: AddressSpace>(m: Machine<B>, i: Instr)
    requires
        m.cpu.cycles + 24 <= u64::MAX,
        i is Pull,
    ensures
        m.cpu.cycles <= instr_effect(m, i).cpu.cycles <= m.cpu.cycles + 24,
{
}

proof fn lemma_control_cycles<B: AddressSpace>(m: Machine<B>, i: Instr)
    requires
        m.cpu.cycles + 24 <= u64::MAX,
        i is Move || i is Nop || i is Wait || i is Stop || i is Wdm || i is Break || i is Coprocessor,
    ensures
        m.cpu.cycles <= instr_effect(m, i).cpu.cycles <= m.cpu.cycles + 24,
{
}

proof fn lemma_instr_cycles<B: AddressSpace>(m: Machine<B>, i: Instr)
    requires
        m.cpu.cycles + 24 <= u64::MAX,
    ensures
        m.cpu.cycles <= instr_effect(m, i).cpu.cycles <= m.cpu.cycles + 24,
{
    match i {
        Instr::Read(_, _) => lemma_read_cycles(m, i),
        Instr::Store(_, _) => lemma_store_cycles(m, i),
        Instr::Modify(_, _) => lemma_modify_cycles(m, i),
        Instr::Immediate(_) | Instr::ModifyAcc(_) => lemma_operand_cycles(m, i),
        Instr::Branch(_, _) | Instr::BranchAlways | Instr::BranchLong | Instr::Jump(_) =>
            lemma_flow_cycles(m, i),
        Instr::Flag(_, _) | Instr::Transfer(_) | Instr::Count(_, _) | Instr::Mask(_)
            | Instr::ExchangeCarry | Instr::ExchangeBytes => lemma_register_cycles(m, i),
        Instr::Push(_) | Instr::PushAbs | Instr::PushInd | Instr::PushRel =>
            lemma_push_cycles(m, i),
        Instr::Pull(_) => lemma_pull_cycles(m, i),
        Instr::Move(_) | Instr::Nop | Instr::Wait | Instr::Stop | Instr::Wdm | Instr::Break
            | Instr::Coprocessor => lemma_control_cycles(m, i),
    }
}

proof fn lemma_awake_cycles<B: AddressSpace>(m: Machine<B>)
    requires
        m.cpu.cycles + 42 <= u64::MAX,
    ensures
        m.cpu.cycles + 6 <= awake_step(m).cpu.cycles <= m.cpu.cycles + 42,
{
    let m1 = fetch_byte(m).1;
    let op = fetch_byte(m).0;
    let m2 = ticked(m1, 6);
    lemma_instr_cycles(m2, decoded(op));
}

/// Every step takes at least six and at most sixty master cycles, whatever
/// the processor's state and whatever the memory holds.
pub proof fn law_step_cycles<B: AddressSpace>(m: Machine<B>)
    requires
        m.cpu.cycles + MAX_STEP_CYCLES <= u64::MAX,
    ensures
        m.cpu.cycles + 6 <= stepped(m).cpu.cycles <= m.cpu.cycles + MAX_STEP_CYCLES,
{
    reveal(stepped);
    let c = nmi_latched(m.cpu);
    if !c.waiting {
        lemma_awake_cycles(with_cpu(m, c));
    } else {
        let d = Cpu65816 { waiting: false, ..c };
        lemma_awake_cycles(
            with_cpu(m, tick(d, 6)),
        );
    }
}

} // verus!
