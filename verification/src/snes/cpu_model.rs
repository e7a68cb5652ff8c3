//! Mathematical model of the 65C816: registers, flags, addressing modes and
//! the effect of every instruction on the processor and its memory.

use vstd::prelude::*;

use crate::snes::address_space::AddressSpace;
use crate::snes::cpu::Cpu65816;

verus! {

/// Status register flag bits.
pub const FLAG_C: u8 = 0x01;
pub const FLAG_Z: u8 = 0x02;
pub const FLAG_I: u8 = 0x04;
pub const FLAG_D: u8 = 0x08;
pub const FLAG_X: u8 = 0x10;
pub const FLAG_M: u8 = 0x20;
pub const FLAG_V: u8 = 0x40;
pub const FLAG_N: u8 = 0x80;

/// Most master cycles that one `step` can take.
pub const MAX_STEP_CYCLES: u64 = 60;

/// The processor together with the memory it runs on.
pub struct Machine<B: AddressSpace> {
    pub cpu: Cpu65816,
    pub mem: B::State,
}

// ── Numbers and flags ──

pub open spec fn wrap16(i: int) -> u16 {
    (i % 0x1_0000) as u16
}

pub open spec fn low_byte(v: u16) -> u8 {
    (v % 0x100) as u8
}

pub open spec fn high_byte(v: u16) -> u8 {
    (v / 0x100) as u8
}

/// The 16-bit word with the given low and high byte.
pub open spec fn word(lo: u8, hi: u8) -> u16 {
    (lo + 0x100 * hi) as u16
}

/// The 24-bit address of `offset` in `bank`.
pub open spec fn long_addr(bank: u8, offset: u16) -> u32 {
    (0x1_0000 * bank + offset) as u32
}

/// A byte read as a two's complement number.
pub open spec fn signed_byte(v: u8) -> int {
    if v < 0x80 {
        v as int
    } else {
        v - 0x100
    }
}

pub open spec fn has_flag(p: u8, mask: u8) -> bool {
    p & mask != 0
}

pub open spec fn with_flag(p: u8, mask: u8, on: bool) -> u8 {
    if on {
        p | mask
    } else {
        p & !mask
    }
}

/// Smallest value whose sign bit is set, for the operand width.
pub open spec fn sign_bound(narrow: bool) -> int {
    if narrow {
        0x80
    } else {
        0x8000
    }
}

/// Number of values of the operand width.
pub open spec fn modulus(narrow: bool) -> int {
    2 * sign_bound(narrow)
}

/// An operand of the given width read as a two's complement number.
pub open spec fn signed(narrow: bool, v: int) -> int {
    if v < sign_bound(narrow) {
        v
    } else {
        v - modulus(narrow)
    }
}

pub open spec fn flags_nz(p: u8, narrow: bool, v: int) -> u8 {
    with_flag(with_flag(p, FLAG_N, v >= sign_bound(narrow)), FLAG_Z, v == 0)
}

// ── Register widths ──

pub open spec fn acc_narrow(c: Cpu65816) -> bool {
    c.emulation || has_flag(c.p, FLAG_M)
}

pub open spec fn index_narrow(c: Cpu65816) -> bool {
    c.emulation || has_flag(c.p, FLAG_X)
}

/// A register seen through the operand width.
pub open spec fn narrowed(narrow: bool, v: u16) -> u16 {
    if narrow {
        (v % 0x100) as u16
    } else {
        v
    }
}

/// The accumulator after `v` was stored at the operand width: an 8-bit store
/// keeps the high byte.
pub open spec fn acc_stored(narrow: bool, a: u16, v: u16) -> u16 {
    if narrow {
        (a / 0x100 * 0x100 + v) as u16
    } else {
        v
    }
}

pub open spec fn carry_in(p: u8) -> int {
    if has_flag(p, FLAG_C) {
        1
    } else {
        0
    }
}

// ── Arithmetic ──

/// Result of an addition or subtraction: value, carry flag, overflow flag.
pub struct Sum {
    pub value: u16,
    pub carry: bool,
    pub overflow: bool,
}

pub open spec fn binary_add(narrow: bool, a: int, v: int, c: int) -> Sum {
    let s = signed(narrow, a) + signed(narrow, v) + c;
    Sum {
        value: ((a + v + c) % modulus(narrow)) as u16,
        carry: a + v + c >= modulus(narrow),
        overflow: !(-sign_bound(narrow) <= s < sign_bound(narrow)),
    }
}

pub open spec fn binary_subtract(narrow: bool, a: int, v: int, c: int) -> Sum {
    let s = signed(narrow, a) - signed(narrow, v) - (1 - c);
    Sum {
        value: ((a - v - (1 - c)) % modulus(narrow)) as u16,
        carry: a - v - (1 - c) >= 0,
        overflow: !(-sign_bound(narrow) <= s < sign_bound(narrow)),
    }
}

/// Decimal correction of a digit sum.
pub open spec fn digit_adjusted(n: int) -> int {
    if n > 9 {
        n + 6
    } else {
        n
    }
}

/// True when two operands of equal sign gave a result of the other sign.
pub open spec fn sign_flipped(narrow: bool, a: int, v: int, r: int) -> bool {
    let h = sign_bound(narrow);
    (a >= h) == (v >= h) && (r >= h) != (a >= h)
}

/// 8-bit decimal addition. The low digit is corrected; the high digit of the
/// value is the plain digit sum, and only the carry sees its correction.
pub open spec fn decimal_add8(a: int, v: int, c: int) -> Sum {
    let lo = digit_adjusted(a % 16 + v % 16 + c);
    let hi = a / 16 + v / 16 + if lo > 15 { 1int } else { 0int };
    let r = (hi % 16) * 16 + lo % 16;
    Sum {
        value: r as u16,
        carry: hi > 9,
        overflow: sign_flipped(true, a, v, r),
    }
}

/// 16-bit decimal addition, digit by digit.
pub open spec fn decimal_add16(a: int, v: int, c: int) -> Sum {
    let n0 = digit_adjusted(a % 16 + v % 16 + c);
    let n1 = digit_adjusted((a / 16) % 16 + (v / 16) % 16 + n0 / 16);
    let n2 = digit_adjusted((a / 256) % 16 + (v / 256) % 16 + n1 / 16);
    let n3 = digit_adjusted((a / 4096) % 16 + (v / 4096) % 16 + n2 / 16);
    let r = n0 % 16 + 16 * (n1 % 16) + 256 * (n2 % 16) + 4096 * (n3 % 16);
    Sum {
        value: r as u16,
        carry: n3 / 16 != 0,
        overflow: sign_flipped(false, a, v, r),
    }
}

/// A digit difference after decimal correction.
pub open spec fn digit_borrowed(n: int) -> int {
    if n < 0 {
        (n + 10) % 16
    } else {
        n
    }
}

pub open spec fn borrow(n: int) -> int {
    if n < 0 {
        1
    } else {
        0
    }
}

/// 8-bit decimal subtraction; both flags follow the binary difference.
pub open spec fn decimal_subtract8(a: int, v: int, c: int) -> Sum {
    let n0 = a % 16 - v % 16 - (1 - c);
    let n1 = a / 16 - v / 16 - borrow(n0);
    Sum {
        value: (16 * digit_borrowed(n1) + digit_borrowed(n0)) as u16,
        carry: binary_subtract(true, a, v, c).carry,
        overflow: binary_subtract(true, a, v, c).overflow,
    }
}

/// 16-bit decimal subtraction; the overflow flag follows the binary difference.
pub open spec fn decimal_subtract16(a: int, v: int, c: int) -> Sum {
    let n0 = a % 16 - v % 16 - (1 - c);
    let n1 = (a / 16) % 16 - (v / 16) % 16 - borrow(n0);
    let n2 = (a / 256) % 16 - (v / 256) % 16 - borrow(n1);
    let n3 = (a / 4096) % 16 - (v / 4096) % 16 - borrow(n2);
    Sum {
        value: (digit_borrowed(n0) + 16 * digit_borrowed(n1) + 256 * digit_borrowed(n2) + 4096
            * digit_borrowed(n3)) as u16,
        carry: n3 >= 0,
        overflow: binary_subtract(false, a, v, c).overflow,
    }
}

pub open spec fn add_with_carry(narrow: bool, decimal: bool, a: int, v: int, c: int) -> Sum {
    if !decimal {
        binary_add(narrow, a, v, c)
    } else if narrow {
        decimal_add8(a, v, c)
    } else {
        decimal_add16(a, v, c)
    }
}

pub open spec fn subtract_with_carry(narrow: bool, decimal: bool, a: int, v: int, c: int) -> Sum {
    if !decimal {
        binary_subtract(narrow, a, v, c)
    } else if narrow {
        decimal_subtract8(a, v, c)
    } else {
        decimal_subtract16(a, v, c)
    }
}

/// The processor after a sum went to the accumulator.
pub open spec fn accumulate(c: Cpu65816, narrow: bool, s: Sum) -> Cpu65816 {
    Cpu65816 {
        a: acc_stored(narrow, c.a, s.value),
        p: flags_nz(
            with_flag(with_flag(c.p, FLAG_C, s.carry), FLAG_V, s.overflow),
            narrow,
            s.value as int,
        ),
        ..c
    }
}

// ── Memory, stack and program counter ──

pub open spec fn read_byte<B: AddressSpace>(m: Machine<B>, addr: u32) -> (u8, Machine<B>) {
    (B::peek(m.mem, addr), Machine { cpu: m.cpu, mem: B::after_read(m.mem, addr) })
}

pub open spec fn write_byte<B: AddressSpace>(m: Machine<B>, addr: u32, v: u8) -> Machine<B> {
    Machine { cpu: m.cpu, mem: B::after_write(m.mem, addr, v) }
}

pub open spec fn next_addr(addr: u32) -> u32 {
    ((addr + 1) % 0x1_0000_0000) as u32
}

pub open spec fn read_word<B: AddressSpace>(m: Machine<B>, addr: u32) -> (u16, Machine<B>) {
    let (lo, m1) = read_byte(m, addr);
    let (hi, m2) = read_byte(m1, next_addr(addr));
    (word(lo, hi), m2)
}

pub open spec fn write_word<B: AddressSpace>(m: Machine<B>, addr: u32, v: u16) -> Machine<B> {
    write_byte(write_byte(m, addr, low_byte(v)), next_addr(addr), high_byte(v))
}

/// Load an operand of the given width.
pub open spec fn load<B: AddressSpace>(m: Machine<B>, narrow: bool, addr: u32) -> (
    u16,
    Machine<B>,
) {
    if narrow {
        let (v, m1) = read_byte(m, addr);
        (v as u16, m1)
    } else {
        read_word(m, addr)
    }
}

/// Store an operand of the given width.
pub open spec fn store<B: AddressSpace>(m: Machine<B>, narrow: bool, addr: u32, v: u16) -> Machine<
    B,
> {
    if narrow {
        write_byte(m, addr, low_byte(v))
    } else {
        write_word(m, addr, v)
    }
}

pub open spec fn with_cpu<B: AddressSpace>(m: Machine<B>, c: Cpu65816) -> Machine<B> {
    Machine { cpu: c, mem: m.mem }
}

pub open spec fn tick(c: Cpu65816, n: int) -> Cpu65816 {
    Cpu65816 { cycles: (c.cycles + n) as u64, ..c }
}

pub open spec fn ticked<B: AddressSpace>(m: Machine<B>, n: int) -> Machine<B> {
    with_cpu(m, tick(m.cpu, n))
}

/// The stack pointer moved by `n`; emulation mode keeps it in page one.
pub open spec fn stack_moved(c: Cpu65816, n: int) -> u16 {
    if c.emulation {
        (0x100 + (c.s + n) % 0x100) as u16
    } else {
        wrap16(c.s + n)
    }
}

pub open spec fn push_byte<B: AddressSpace>(m: Machine<B>, v: u8) -> Machine<B> {
    let m1 = write_byte(m, m.cpu.s as u32, v);
    with_cpu(m1, Cpu65816 { s: stack_moved(m.cpu, -1), ..m.cpu })
}

pub open spec fn push_word<B: AddressSpace>(m: Machine<B>, v: u16) -> Machine<B> {
    push_byte(push_byte(m, high_byte(v)), low_byte(v))
}

pub open spec fn push<B: AddressSpace>(m: Machine<B>, narrow: bool, v: u16) -> Machine<B> {
    if narrow {
        push_byte(m, low_byte(v))
    } else {
        push_word(m, v)
    }
}

pub open spec fn pull_byte<B: AddressSpace>(m: Machine<B>) -> (u8, Machine<B>) {
    let m1 = with_cpu(m, Cpu65816 { s: stack_moved(m.cpu, 1), ..m.cpu });
    read_byte(m1, m1.cpu.s as u32)
}

pub open spec fn pull_word<B: AddressSpace>(m: Machine<B>) -> (u16, Machine<B>) {
    let (lo, m1) = pull_byte(m);
    let (hi, m2) = pull_byte(m1);
    (word(lo, hi), m2)
}

pub open spec fn pull<B: AddressSpace>(m: Machine<B>, narrow: bool) -> (u16, Machine<B>) {
    if narrow {
        let (v, m1) = pull_byte(m);
        (v as u16, m1)
    } else {
        pull_word(m)
    }
}

pub open spec fn fetch_byte<B: AddressSpace>(m: Machine<B>) -> (u8, Machine<B>) {
    let (v, m1) = read_byte(m, long_addr(m.cpu.pbr, m.cpu.pc));
    (v, with_cpu(m1, Cpu65816 { pc: wrap16(m1.cpu.pc + 1), ..m1.cpu }))
}

pub open spec fn fetch_word<B: AddressSpace>(m: Machine<B>) -> (u16, Machine<B>) {
    let (lo, m1) = fetch_byte(m);
    let (hi, m2) = fetch_byte(m1);
    (word(lo, hi), m2)
}

pub open spec fn fetch_long<B: AddressSpace>(m: Machine<B>) -> (u32, Machine<B>) {
    let (lo, m1) = fetch_byte(m);
    let (mi, m2) = fetch_byte(m1);
    let (hi, m3) = fetch_byte(m2);
    (long_addr(hi, word(lo, mi)), m3)
}

// ── Addressing modes ──

/// Where an instruction finds its memory operand.
#[derive(Clone, Copy)]
pub enum Mode {
    /// Direct page, then indexed by X or Y.
    Dp,
    DpX,
    DpY,
    /// Pointer in the direct page: 16-bit in the data bank, or 24-bit.
    DpInd,
    DpIndLong,
    DpXInd,
    DpIndY,
    DpIndLongY,
    /// 16-bit address in the data bank.
    Abs,
    AbsX,
    AbsY,
    /// 24-bit address.
    AbsLong,
    AbsLongX,
    /// Relative to the stack pointer.
    Sr,
    SrIndY,
}

/// Read a 16-bit pointer at `ptr` and place it in the data bank.
pub open spec fn pointer<B: AddressSpace>(m: Machine<B>, ptr: u16) -> (u32, Machine<B>) {
    let (off, m1) = read_word(m, ptr as u32);
    (long_addr(m.cpu.dbr, off), m1)
}

/// Read a 24-bit pointer at `ptr`.
pub open spec fn long_pointer<B: AddressSpace>(m: Machine<B>, ptr: u16) -> (u32, Machine<B>) {
    let (lo, m1) = read_byte(m, ptr as u32);
    let (mi, m2) = read_byte(m1, (ptr + 1) as u32);
    let (hi, m3) = read_byte(m2, (ptr + 2) as u32);
    (long_addr(hi, word(lo, mi)), m3)
}

/// Fetch a direct page operand: the offset into bank zero, after `extra`
/// cycles and one more access when the direct page is not page aligned.
pub open spec fn direct<B: AddressSpace>(m: Machine<B>, index: u16, extra: int) -> (
    u16,
    Machine<B>,
) {
    let (off, m1) = fetch_byte(m);
    let n = extra + if m1.cpu.d % 0x100 != 0 { 6int } else { 0int };
    (wrap16(m1.cpu.d + off + index), ticked(m1, n))
}

/// Address plus an index register.
pub open spec fn indexed(base: u32, index: u16) -> u32 {
    (base + index) as u32
}

/// The effective address of a mode, and the machine after computing it.
pub open spec fn effective<B: AddressSpace>(m: Machine<B>, mode: Mode) -> (u32, Machine<B>) {
    match mode {
        Mode::Dp => {
            let (a, m1) = direct(m, 0, 6);
            (a as u32, m1)
        },
        Mode::DpX => {
            let (a, m1) = direct(m, m.cpu.x, 12);
            (a as u32, m1)
        },
        Mode::DpY => {
            let (a, m1) = direct(m, m.cpu.y, 12);
            (a as u32, m1)
        },
        Mode::DpInd => {
            let (a, m1) = direct(m, 0, 6);
            pointer(m1, a)
        },
        Mode::DpIndLong => {
            let (a, m1) = direct(m, 0, 6);
            long_pointer(m1, a)
        },
        Mode::DpXInd => {
            let (a, m1) = direct(m, m.cpu.x, 12);
            pointer(m1, a)
        },
        Mode::DpIndY => {
            let (a, m1) = direct(m, 0, 6);
            let (base, m2) = pointer(m1, a);
            (indexed(base, m2.cpu.y), m2)
        },
        Mode::DpIndLongY => {
            let (a, m1) = direct(m, 0, 6);
            let (base, m2) = long_pointer(m1, a);
            (indexed(base, m2.cpu.y), m2)
        },
        Mode::Abs => {
            let (off, m1) = fetch_word(m);
            (long_addr(m1.cpu.dbr, off), ticked(m1, 6))
        },
        Mode::AbsX => {
            let (off, m1) = fetch_word(m);
            (indexed(long_addr(m1.cpu.dbr, off), m1.cpu.x), ticked(m1, 6))
        },
        Mode::AbsY => {
            let (off, m1) = fetch_word(m);
            (indexed(long_addr(m1.cpu.dbr, off), m1.cpu.y), ticked(m1, 6))
        },
        Mode::AbsLong => {
            let (a, m1) = fetch_long(m);
            (a, ticked(m1, 6))
        },
        Mode::AbsLongX => {
            let (a, m1) = fetch_long(m);
            (indexed(a, m1.cpu.x), ticked(m1, 6))
        },
        Mode::Sr => {
            let (off, m1) = fetch_byte(m);
            (wrap16(m1.cpu.s + off) as u32, ticked(m1, 12))
        },
        Mode::SrIndY => {
            let (off, m1) = fetch_byte(m);
            let (base, m2) = pointer(ticked(m1, 12), wrap16(m1.cpu.s + off));
            (indexed(base, m2.cpu.y), m2)
        },
    }
}

// ── Operations on an operand ──

/// Operations that only read their operand.
#[derive(Clone, Copy)]
pub enum ReadOp {
    Ora,
    And,
    Eor,
    Adc,
    Lda,
    Compare,
    Sbc,
    Bit,
    Cpx,
    Cpy,
    Ldx,
    Ldy,
}

/// Operations that store a register.
#[derive(Clone, Copy)]
pub enum StoreOp {
    Sta,
    Stx,
    Sty,
    Stz,
}

/// Operations that read, change and write back their operand.
#[derive(Clone, Copy)]
pub enum ModifyOp {
    Inc,
    Dec,
    Asl,
    Lsr,
    Rol,
    Ror,
    Trb,
    Tsb,
}

/// True for the operations whose width is that of the index registers.
pub open spec fn uses_index_width(op: ReadOp) -> bool {
    op is Cpx || op is Cpy || op is Ldx || op is Ldy
}

pub open spec fn operand_narrow(c: Cpu65816, op: ReadOp) -> bool {
    if uses_index_width(op) {
        index_narrow(c)
    } else {
        acc_narrow(c)
    }
}

/// Flags after comparing a register value with an operand.
pub open spec fn flags_compared(p: u8, narrow: bool, a: u16, v: u16) -> u8 {
    flags_nz(with_flag(p, FLAG_C, a >= v), narrow, (a - v) % modulus(narrow))
}

/// Store to the accumulator and set N and Z.
pub open spec fn acc_loaded(c: Cpu65816, narrow: bool, v: u16) -> Cpu65816 {
    Cpu65816 { a: acc_stored(narrow, c.a, v), p: flags_nz(c.p, narrow, v as int), ..c }
}

/// Effect of a reading operation on the registers. An immediate BIT touches
/// only Z.
pub open spec fn read_effect(c: Cpu65816, op: ReadOp, immediate: bool, v: u16) -> Cpu65816 {
    let narrow = operand_narrow(c, op);
    let acc = narrowed(narrow, c.a);
    match op {
        ReadOp::Ora => acc_loaded(c, narrow, acc | v),
        ReadOp::And => acc_loaded(c, narrow, acc & v),
        ReadOp::Eor => acc_loaded(c, narrow, acc ^ v),
        ReadOp::Lda => acc_loaded(c, narrow, v),
        ReadOp::Adc => accumulate(
            c,
            narrow,
            add_with_carry(narrow, has_flag(c.p, FLAG_D), acc as int, v as int, carry_in(c.p)),
        ),
        ReadOp::Sbc => accumulate(
            c,
            narrow,
            subtract_with_carry(narrow, has_flag(c.p, FLAG_D), acc as int, v as int, carry_in(c.p)),
        ),
        ReadOp::Compare => Cpu65816 { p: flags_compared(c.p, narrow, acc, v), ..c },
        ReadOp::Cpx => Cpu65816 {
            p: flags_compared(c.p, narrow, narrowed(narrow, c.x), v),
            ..c
        },
        ReadOp::Cpy => Cpu65816 {
            p: flags_compared(c.p, narrow, narrowed(narrow, c.y), v),
            ..c
        },
        ReadOp::Ldx => Cpu65816 { x: v, p: flags_nz(c.p, narrow, v as int), ..c },
        ReadOp::Ldy => Cpu65816 { y: v, p: flags_nz(c.p, narrow, v as int), ..c },
        ReadOp::Bit => {
            let z = acc & v == 0;
            if immediate {
                Cpu65816 { p: with_flag(c.p, FLAG_Z, z), ..c }
            } else {
                let n = v as int >= sign_bound(narrow);
                let o = (v as int / (sign_bound(narrow) / 2)) % 2 == 1;
                Cpu65816 {
                    p: with_flag(with_flag(with_flag(c.p, FLAG_N, n), FLAG_V, o), FLAG_Z, z),
                    ..c
                }
            }
        },
    }
}

/// Value written by a modifying operation.
pub open spec fn modified_value(c: Cpu65816, op: ModifyOp, v: u16) -> u16 {
    let narrow = acc_narrow(c);
    let acc = narrowed(narrow, c.a);
    match op {
        ModifyOp::Inc => ((v + 1) % modulus(narrow)) as u16,
        ModifyOp::Dec => ((v - 1) % modulus(narrow)) as u16,
        ModifyOp::Asl => ((2 * v) % modulus(narrow)) as u16,
        ModifyOp::Lsr => (v / 2) as u16,
        ModifyOp::Rol => ((2 * v) % modulus(narrow) + carry_in(c.p)) as u16,
        ModifyOp::Ror => (v / 2 + if has_flag(c.p, FLAG_C) {
            sign_bound(narrow)
        } else {
            0
        }) as u16,
        ModifyOp::Trb => v & !acc,
        ModifyOp::Tsb => v | acc,
    }
}

/// Flags left by a modifying operation.
pub open spec fn modified_flags(c: Cpu65816, op: ModifyOp, v: u16) -> u8 {
    let narrow = acc_narrow(c);
    let acc = narrowed(narrow, c.a);
    let r = modified_value(c, op, v) as int;
    match op {
        ModifyOp::Inc | ModifyOp::Dec => flags_nz(c.p, narrow, r),
        ModifyOp::Asl | ModifyOp::Rol => flags_nz(
            with_flag(c.p, FLAG_C, v as int >= sign_bound(narrow)),
            narrow,
            r,
        ),
        ModifyOp::Lsr | ModifyOp::Ror => flags_nz(with_flag(c.p, FLAG_C, v % 2 == 1), narrow, r),
        ModifyOp::Trb | ModifyOp::Tsb => with_flag(c.p, FLAG_Z, v & acc == 0),
    }
}

/// Width and value of a stored register.
pub open spec fn stored_narrow(c: Cpu65816, op: StoreOp) -> bool {
    if op is Stx || op is Sty {
        index_narrow(c)
    } else {
        acc_narrow(c)
    }
}

pub open spec fn stored_value(c: Cpu65816, op: StoreOp) -> u16 {
    match op {
        StoreOp::Sta => c.a,
        StoreOp::Stx => c.x,
        StoreOp::Sty => c.y,
        StoreOp::Stz => 0,
    }
}

// ── Instructions ──

/// Register to register moves.
#[derive(Clone, Copy)]
pub enum Transfer {
    Tax,
    Tay,
    Txa,
    Tya,
    Tsx,
    Txs,
    Txy,
    Tyx,
    Tcd,
    Tdc,
    Tcs,
    Tsc,
}

/// Registers that can be pushed and pulled.
#[derive(Clone, Copy)]
pub enum StackReg {
    A,
    X,
    Y,
    P,
    Dbr,
    D,
    Pbr,
}

/// Jumps, calls and returns.
#[derive(Clone, Copy)]
pub enum Jump {
    Abs,
    AbsInd,
    AbsXInd,
    Long,
    LongInd,
    Call,
    CallXInd,
    CallLong,
    Return,
    ReturnLong,
    ReturnInterrupt,
}

/// A decoded opcode.
#[derive(Clone, Copy)]
pub enum Instr {
    /// Operand in memory.
    Read(ReadOp, Mode),
    /// Operand in the instruction stream.
    Immediate(ReadOp),
    Store(StoreOp, Mode),
    Modify(ModifyOp, Mode),
    /// Operand in the accumulator.
    ModifyAcc(ModifyOp),
    /// Branch when the flag has the given value.
    Branch(u8, bool),
    BranchAlways,
    BranchLong,
    Jump(Jump),
    /// Write a flag directly.
    Flag(u8, bool),
    Transfer(Transfer),
    Push(StackReg),
    Pull(StackReg),
    PushAbs,
    PushInd,
    PushRel,
    /// Count X (true) or Y (false) up (true) or down (false).
    Count(bool, bool),
    /// REP (false) and SEP (true).
    Mask(bool),
    ExchangeCarry,
    ExchangeBytes,
    /// Block move downwards (true) or upwards (false).
    Move(bool),
    Nop,
    Wait,
    Stop,
    Wdm,
    Break,
    Coprocessor,
}

/// Operation of the regular eight rows of the opcode matrix.
pub open spec fn row_op(row: int) -> ReadOp {
    if row == 0 {
        ReadOp::Ora
    } else if row == 1 {
        ReadOp::And
    } else if row == 2 {
        ReadOp::Eor
    } else if row == 3 {
        ReadOp::Adc
    } else if row == 5 {
        ReadOp::Lda
    } else if row == 6 {
        ReadOp::Compare
    } else {
        ReadOp::Sbc
    }
}

/// Addressing mode of the regular columns of the opcode matrix.
pub open spec fn column_mode(col: int) -> Option<Mode> {
    if col == 0x01 {
        Some(Mode::DpXInd)
    } else if col == 0x03 {
        Some(Mode::Sr)
    } else if col == 0x05 {
        Some(Mode::Dp)
    } else if col == 0x07 {
        Some(Mode::DpIndLong)
    } else if col == 0x0D {
        Some(Mode::Abs)
    } else if col == 0x0F {
        Some(Mode::AbsLong)
    } else if col == 0x11 {
        Some(Mode::DpIndY)
    } else if col == 0x12 {
        Some(Mode::DpInd)
    } else if col == 0x13 {
        Some(Mode::SrIndY)
    } else if col == 0x15 {
        Some(Mode::DpX)
    } else if col == 0x17 {
        Some(Mode::DpIndLongY)
    } else if col == 0x19 {
        Some(Mode::AbsY)
    } else if col == 0x1D {
        Some(Mode::AbsX)
    } else if col == 0x1F {
        Some(Mode::AbsLongX)
    } else {
        None
    }
}

/// The instruction of an opcode. The opcode matrix has eight rows of 32; in
/// most columns a row selects the operation and the column the mode.
pub open spec fn decoded(op: u8) -> Instr {
    let row = op as int / 32;
    let col = op as int % 32;
    if column_mode(col) is Some {
        if row == 4 {
            Instr::Store(StoreOp::Sta, column_mode(col)->0)
        } else {
            Instr::Read(row_op(row), column_mode(col)->0)
        }
    } else if col == 0x09 && row != 4 {
        Instr::Immediate(row_op(row))
    } else {
        decoded_irregular(op)
    }
}

/// Opcodes outside the regular columns.
pub open spec fn decoded_irregular(op: u8) -> Instr {
    match op {
        0x89 => Instr::Immediate(ReadOp::Bit),
        0x24 => Instr::Read(ReadOp::Bit, Mode::Dp),
        0x34 => Instr::Read(ReadOp::Bit, Mode::DpX),
        0x2C => Instr::Read(ReadOp::Bit, Mode::Abs),
        0x3C => Instr::Read(ReadOp::Bit, Mode::AbsX),
        0xE0 => Instr::Immediate(ReadOp::Cpx),
        0xE4 => Instr::Read(ReadOp::Cpx, Mode::Dp),
        0xEC => Instr::Read(ReadOp::Cpx, Mode::Abs),
        0xC0 => Instr::Immediate(ReadOp::Cpy),
        0xC4 => Instr::Read(ReadOp::Cpy, Mode::Dp),
        0xCC => Instr::Read(ReadOp::Cpy, Mode::Abs),
        0xA2 => Instr::Immediate(ReadOp::Ldx),
        0xA6 => Instr::Read(ReadOp::Ldx, Mode::Dp),
        0xB6 => Instr::Read(ReadOp::Ldx, Mode::DpY),
        0xAE => Instr::Read(ReadOp::Ldx, Mode::Abs),
        0xBE => Instr::Read(ReadOp::Ldx, Mode::AbsY),
        0xA0 => Instr::Immediate(ReadOp::Ldy),
        0xA4 => Instr::Read(ReadOp::Ldy, Mode::Dp),
        0xB4 => Instr::Read(ReadOp::Ldy, Mode::DpX),
        0xAC => Instr::Read(ReadOp::Ldy, Mode::Abs),
        0xBC => Instr::Read(ReadOp::Ldy, Mode::AbsX),
        0x86 => Instr::Store(StoreOp::Stx, Mode::Dp),
        0x96 => Instr::Store(StoreOp::Stx, Mode::DpY),
        0x8E => Instr::Store(StoreOp::Stx, Mode::Abs),
        0x84 => Instr::Store(StoreOp::Sty, Mode::Dp),
        0x94 => Instr::Store(StoreOp::Sty, Mode::DpX),
        0x8C => Instr::Store(StoreOp::Sty, Mode::Abs),
        0x64 => Instr::Store(StoreOp::Stz, Mode::Dp),
        0x74 => Instr::Store(StoreOp::Stz, Mode::DpX),
        0x9C => Instr::Store(StoreOp::Stz, Mode::Abs),
        0x9E => Instr::Store(StoreOp::Stz, Mode::AbsX),
        0x1A => Instr::ModifyAcc(ModifyOp::Inc),
        0xE6 => Instr::Modify(ModifyOp::Inc, Mode::Dp),
        0xF6 => Instr::Modify(ModifyOp::Inc, Mode::DpX),
        0xEE => Instr::Modify(ModifyOp::Inc, Mode::Abs),
        0xFE => Instr::Modify(ModifyOp::Inc, Mode::AbsX),
        0x3A => Instr::ModifyAcc(ModifyOp::Dec),
        0xC6 => Instr::Modify(ModifyOp::Dec, Mode::Dp),
        0xD6 => Instr::Modify(ModifyOp::Dec, Mode::DpX),
        0xCE => Instr::Modify(ModifyOp::Dec, Mode::Abs),
        0xDE => Instr::Modify(ModifyOp::Dec, Mode::AbsX),
        0x0A => Instr::ModifyAcc(ModifyOp::Asl),
        0x06 => Instr::Modify(ModifyOp::Asl, Mode::Dp),
        0x16 => Instr::Modify(ModifyOp::Asl, Mode::DpX),
        0x0E => Instr::Modify(ModifyOp::Asl, Mode::Abs),
        0x1E => Instr::Modify(ModifyOp::Asl, Mode::AbsX),
        0x4A => Instr::ModifyAcc(ModifyOp::Lsr),
        0x46 => Instr::Modify(ModifyOp::Lsr, Mode::Dp),
        0x56 => Instr::Modify(ModifyOp::Lsr, Mode::DpX),
        0x4E => Instr::Modify(ModifyOp::Lsr, Mode::Abs),
        0x5E => Instr::Modify(ModifyOp::Lsr, Mode::AbsX),
        0x2A => Instr::ModifyAcc(ModifyOp::Rol),
        0x26 => Instr::Modify(ModifyOp::Rol, Mode::Dp),
        0x36 => Instr::Modify(ModifyOp::Rol, Mode::DpX),
        0x2E => Instr::Modify(ModifyOp::Rol, Mode::Abs),
        0x3E => Instr::Modify(ModifyOp::Rol, Mode::AbsX),
        0x6A => Instr::ModifyAcc(ModifyOp::Ror),
        0x66 => Instr::Modify(ModifyOp::Ror, Mode::Dp),
        0x76 => Instr::Modify(ModifyOp::Ror, Mode::DpX),
        0x6E => Instr::Modify(ModifyOp::Ror, Mode::Abs),
        0x7E => Instr::Modify(ModifyOp::Ror, Mode::AbsX),
        0x14 => Instr::Modify(ModifyOp::Trb, Mode::Dp),
        0x1C => Instr::Modify(ModifyOp::Trb, Mode::Abs),
        0x04 => Instr::Modify(ModifyOp::Tsb, Mode::Dp),
        0x0C => Instr::Modify(ModifyOp::Tsb, Mode::Abs),
        0x10 => Instr::Branch(FLAG_N, false),
        0x30 => Instr::Branch(FLAG_N, true),
        0x50 => Instr::Branch(FLAG_V, false),
        0x70 => Instr::Branch(FLAG_V, true),
        0x90 => Instr::Branch(FLAG_C, false),
        0xB0 => Instr::Branch(FLAG_C, true),
        0xD0 => Instr::Branch(FLAG_Z, false),
        0xF0 => Instr::Branch(FLAG_Z, true),
        0x80 => Instr::BranchAlways,
        0x82 => Instr::BranchLong,
        0x4C => Instr::Jump(Jump::Abs),
        0x6C => Instr::Jump(Jump::AbsInd),
        0x7C => Instr::Jump(Jump::AbsXInd),
        0x5C => Instr::Jump(Jump::Long),
        0xDC => Instr::Jump(Jump::LongInd),
        0x20 => Instr::Jump(Jump::Call),
        0xFC => Instr::Jump(Jump::CallXInd),
        0x22 => Instr::Jump(Jump::CallLong),
        0x60 => Instr::Jump(Jump::Return),
        0x6B => Instr::Jump(Jump::ReturnLong),
        0x40 => Instr::Jump(Jump::ReturnInterrupt),
        0x18 => Instr::Flag(FLAG_C, false),
        0x38 => Instr::Flag(FLAG_C, true),
        0x58 => Instr::Flag(FLAG_I, false),
        0x78 => Instr::Flag(FLAG_I, true),
        0xD8 => Instr::Flag(FLAG_D, false),
        0xF8 => Instr::Flag(FLAG_D, true),
        0xB8 => Instr::Flag(FLAG_V, false),
        0xAA => Instr::Transfer(Transfer::Tax),
        0xA8 => Instr::Transfer(Transfer::Tay),
        0x8A => Instr::Transfer(Transfer::Txa),
        0x98 => Instr::Transfer(Transfer::Tya),
        0xBA => Instr::Transfer(Transfer::Tsx),
        0x9A => Instr::Transfer(Transfer::Txs),
        0x9B => Instr::Transfer(Transfer::Txy),
        0xBB => Instr::Transfer(Transfer::Tyx),
        0x5B => Instr::Transfer(Transfer::Tcd),
        0x7B => Instr::Transfer(Transfer::Tdc),
        0x1B => Instr::Transfer(Transfer::Tcs),
        0x3B => Instr::Transfer(Transfer::Tsc),
        0x48 => Instr::Push(StackReg::A),
        0x68 => Instr::Pull(StackReg::A),
        0xDA => Instr::Push(StackReg::X),
        0xFA => Instr::Pull(StackReg::X),
        0x5A => Instr::Push(StackReg::Y),
        0x7A => Instr::Pull(StackReg::Y),
        0x08 => Instr::Push(StackReg::P),
        0x28 => Instr::Pull(StackReg::P),
        0x8B => Instr::Push(StackReg::Dbr),
        0xAB => Instr::Pull(StackReg::Dbr),
        0x0B => Instr::Push(StackReg::D),
        0x2B => Instr::Pull(StackReg::D),
        0x4B => Instr::Push(StackReg::Pbr),
        0xF4 => Instr::PushAbs,
        0xD4 => Instr::PushInd,
        0x62 => Instr::PushRel,
        0xE8 => Instr::Count(true, true),
        0xCA => Instr::Count(true, false),
        0xC8 => Instr::Count(false, true),
        0x88 => Instr::Count(false, false),
        0xC2 => Instr::Mask(false),
        0xE2 => Instr::Mask(true),
        0xFB => Instr::ExchangeCarry,
        0xEB => Instr::ExchangeBytes,
        0x44 => Instr::Move(true),
        0x54 => Instr::Move(false),
        0xEA => Instr::Nop,
        0xCB => Instr::Wait,
        0xDB => Instr::Stop,
        0x42 => Instr::Wdm,
        0x00 => Instr::Break,
        _ => Instr::Coprocessor,
    }
}

// ── Effects of the instructions ──

/// The processor after loading the status register: emulation mode forces
/// both width flags, and 8-bit index registers lose their high bytes.
pub open spec fn with_status(c: Cpu65816, val: u8) -> Cpu65816 {
    let p = if c.emulation {
        val | (FLAG_M | FLAG_X)
    } else {
        val
    };
    if has_flag(p, FLAG_X) {
        Cpu65816 { p, x: (c.x % 0x100) as u16, y: (c.y % 0x100) as u16, ..c }
    } else {
        Cpu65816 { p, ..c }
    }
}

pub open spec fn transferred(c: Cpu65816, t: Transfer) -> Cpu65816 {
    let an = acc_narrow(c);
    let xn = index_narrow(c);
    match t {
        Transfer::Tax => {
            let v = narrowed(xn, c.a);
            Cpu65816 { x: v, p: flags_nz(c.p, xn, v as int), ..c }
        },
        Transfer::Tay => {
            let v = narrowed(xn, c.a);
            Cpu65816 { y: v, p: flags_nz(c.p, xn, v as int), ..c }
        },
        Transfer::Txa => acc_loaded(c, an, narrowed(an, c.x)),
        Transfer::Tya => acc_loaded(c, an, narrowed(an, c.y)),
        Transfer::Tsx => {
            let v = narrowed(xn, c.s);
            Cpu65816 { x: v, p: flags_nz(c.p, xn, v as int), ..c }
        },
        Transfer::Txs => Cpu65816 {
            s: if c.emulation {
                (0x100 + c.x % 0x100) as u16
            } else {
                c.x
            },
            ..c
        },
        Transfer::Txy => {
            let v = narrowed(xn, c.x);
            Cpu65816 { y: v, p: flags_nz(c.p, xn, v as int), ..c }
        },
        Transfer::Tyx => {
            let v = narrowed(xn, c.y);
            Cpu65816 { x: v, p: flags_nz(c.p, xn, v as int), ..c }
        },
        Transfer::Tcd => Cpu65816 { d: c.a, p: flags_nz(c.p, false, c.a as int), ..c },
        Transfer::Tdc => acc_loaded(c, false, c.d),
        Transfer::Tcs => Cpu65816 {
            s: if c.emulation {
                (0x100 + c.a % 0x100) as u16
            } else {
                c.a
            },
            ..c
        },
        Transfer::Tsc => acc_loaded(c, false, c.s),
    }
}

/// Push a register and spend one access.
pub open spec fn pushed<B: AddressSpace>(m: Machine<B>, r: StackReg) -> Machine<B> {
    let c = m.cpu;
    let m1 = match r {
        StackReg::A => push(m, acc_narrow(c), c.a),
        StackReg::X => push(m, index_narrow(c), c.x),
        StackReg::Y => push(m, index_narrow(c), c.y),
        StackReg::P => push_byte(m, c.p),
        StackReg::Dbr => push_byte(m, c.dbr),
        StackReg::D => push_word(m, c.d),
        StackReg::Pbr => push_byte(m, c.pbr),
    };
    ticked(m1, 6)
}

/// Pull a register and spend two accesses. The program bank is never pulled
/// on its own.
pub open spec fn pulled<B: AddressSpace>(m: Machine<B>, r: StackReg) -> Machine<B> {
    let an = acc_narrow(m.cpu);
    let xn = index_narrow(m.cpu);
    let m1 = match r {
        StackReg::A => {
            let (v, m1) = pull(m, an);
            with_cpu(m1, acc_loaded(m1.cpu, an, v))
        },
        StackReg::X => {
            let (v, m1) = pull(m, xn);
            with_cpu(m1, Cpu65816 { x: v, p: flags_nz(m1.cpu.p, xn, v as int), ..m1.cpu })
        },
        StackReg::Y => {
            let (v, m1) = pull(m, xn);
            with_cpu(m1, Cpu65816 { y: v, p: flags_nz(m1.cpu.p, xn, v as int), ..m1.cpu })
        },
        StackReg::P => {
            let (v, m1) = pull_byte(m);
            with_cpu(m1, with_status(m1.cpu, v))
        },
        StackReg::Dbr => {
            let (v, m1) = pull_byte(m);
            with_cpu(m1, Cpu65816 { dbr: v, p: flags_nz(m1.cpu.p, true, v as int), ..m1.cpu })
        },
        StackReg::D => {
            let (v, m1) = pull_word(m);
            with_cpu(m1, Cpu65816 { d: v, p: flags_nz(m1.cpu.p, false, v as int), ..m1.cpu })
        },
        StackReg::Pbr => m,
    };
    ticked(m1, 12)
}

/// Save the return state, mask interrupts and continue at `vector`.
pub open spec fn interrupted<B: AddressSpace>(m: Machine<B>, vector: u32) -> Machine<B> {
    let m1 = if m.cpu.emulation {
        m
    } else {
        push_byte(m, m.cpu.pbr)
    };
    let m2 = push_word(m1, m1.cpu.pc);
    let m3 = push_byte(m2, m2.cpu.p);
    let p = with_flag(with_flag(m3.cpu.p, FLAG_I, true), FLAG_D, false);
    let (pc, m4) = read_word(with_cpu(m3, Cpu65816 { p, pbr: 0, ..m3.cpu }), vector);
    with_cpu(m4, Cpu65816 { pc, ..m4.cpu })
}

/// Continue at `pc`.
pub open spec fn jumped<B: AddressSpace>(m: Machine<B>, pc: u16) -> Machine<B> {
    with_cpu(m, Cpu65816 { pc, ..m.cpu })
}

pub open spec fn jumped_long<B: AddressSpace>(m: Machine<B>, pbr: u8, pc: u16) -> Machine<B> {
    with_cpu(m, Cpu65816 { pc, pbr, ..m.cpu })
}

pub open spec fn jump_effect<B: AddressSpace>(m: Machine<B>, j: Jump) -> Machine<B> {
    match j {
        Jump::Abs => {
            let (a, m1) = fetch_word(m);
            jumped(m1, a)
        },
        Jump::AbsInd => {
            let (a, m1) = fetch_word(m);
            let (pc, m2) = read_word(m1, a as u32);
            jumped(m2, pc)
        },
        Jump::AbsXInd => {
            let (a, m1) = fetch_word(m);
            let (pc, m2) = read_word(m1, long_addr(m1.cpu.pbr, wrap16(a + m1.cpu.x)));
            jumped(m2, pc)
        },
        Jump::Long => {
            let (lo, m1) = fetch_word(m);
            let (hi, m2) = fetch_byte(m1);
            jumped_long(m2, hi, lo)
        },
        Jump::LongInd => {
            let (a, m1) = fetch_word(m);
            let (lo, m2) = read_byte(m1, a as u32);
            let (mi, m3) = read_byte(m2, (a + 1) as u32);
            let (hi, m4) = read_byte(m3, (a + 2) as u32);
            jumped_long(m4, hi, word(lo, mi))
        },
        Jump::Call => {
            let (a, m1) = fetch_word(m);
            let m2 = push_word(m1, wrap16(m1.cpu.pc - 1));
            ticked(jumped(m2, a), 6)
        },
        Jump::CallXInd => {
            let (a, m1) = fetch_word(m);
            let m2 = push_word(m1, wrap16(m1.cpu.pc - 1));
            let (pc, m3) = read_word(m2, long_addr(m2.cpu.pbr, wrap16(a + m2.cpu.x)));
            ticked(jumped(m3, pc), 6)
        },
        Jump::CallLong => {
            let (lo, m1) = fetch_word(m);
            let (hi, m2) = fetch_byte(m1);
            let m3 = push_byte(m2, m2.cpu.pbr);
            let m4 = push_word(m3, wrap16(m3.cpu.pc - 1));
            ticked(jumped_long(m4, hi, lo), 6)
        },
        Jump::Return => {
            let (a, m1) = pull_word(m);
            ticked(jumped(m1, wrap16(a + 1)), 18)
        },
        Jump::ReturnLong => {
            let (a, m1) = pull_word(m);
            let (bank, m2) = pull_byte(m1);
            ticked(jumped_long(m2, bank, wrap16(a + 1)), 12)
        },
        Jump::ReturnInterrupt => {
            let (p, m1) = pull_byte(m);
            let (pc, m2) = pull_word(with_cpu(m1, with_status(m1.cpu, p)));
            if m2.cpu.emulation {
                ticked(jumped(m2, pc), 12)
            } else {
                let (bank, m3) = pull_byte(m2);
                ticked(jumped_long(m3, bank, pc), 12)
            }
        },
    }
}

/// Relative branch: fetch the offset, then follow it when taken.
pub open spec fn branched<B: AddressSpace>(m: Machine<B>, taken: bool) -> Machine<B> {
    let (off, m1) = fetch_byte(m);
    if taken {
        ticked(jumped(m1, wrap16(m1.cpu.pc + signed_byte(off))), 12)
    } else {
        ticked(m1, 6)
    }
}

/// A register of the index width counted up or down by one.
pub open spec fn counted(narrow: bool, v: u16, up: bool) -> u16 {
    let w = narrowed(narrow, v);
    if up {
        ((w + 1) % modulus(narrow)) as u16
    } else {
        ((w - 1) % modulus(narrow)) as u16
    }
}

/// One byte of a block move; the instruction repeats until A wraps.
pub open spec fn block_moved<B: AddressSpace>(m: Machine<B>, down: bool) -> Machine<B> {
    let (dst_bank, m1) = fetch_byte(m);
    let (src_bank, m2) = fetch_byte(m1);
    let c = m2.cpu;
    let (v, m3) = read_byte(m2, long_addr(src_bank, c.x));
    let m4 = write_byte(m3, long_addr(dst_bank, c.y), v);
    let n = index_narrow(c);
    let a = wrap16(c.a - 1);
    with_cpu(
        m4,
        tick(
            Cpu65816 {
                dbr: dst_bank,
                x: counted(n, c.x, !down),
                y: counted(n, c.y, !down),
                a,
                pc: if a != 0xFFFF {
                    wrap16(c.pc - 3)
                } else {
                    c.pc
                },
                ..c
            },
            6,
        ),
    )
}

/// Swap the carry flag with the emulation flag.
pub open spec fn carry_exchanged(c: Cpu65816) -> Cpu65816 {
    let p = with_flag(c.p, FLAG_C, c.emulation);
    if has_flag(c.p, FLAG_C) {
        Cpu65816 {
            emulation: true,
            p: p | (FLAG_M | FLAG_X),
            x: (c.x % 0x100) as u16,
            y: (c.y % 0x100) as u16,
            s: (0x100 + c.s % 0x100) as u16,
            ..c
        }
    } else {
        Cpu65816 { emulation: false, p, ..c }
    }
}

/// Effect of one decoded instruction, the opcode already fetched.
pub open spec fn instr_effect<B: AddressSpace>(m: Machine<B>, i: Instr) -> Machine<B> {
    let c = m.cpu;
    match i {
        Instr::Read(op, mode) => {
            let (addr, m1) = effective(m, mode);
            let (v, m2) = load(m1, operand_narrow(m1.cpu, op), addr);
            with_cpu(m2, read_effect(m2.cpu, op, false, v))
        },
        Instr::Immediate(op) => {
            let narrow = operand_narrow(c, op);
            if narrow {
                let (v, m1) = fetch_byte(m);
                with_cpu(m1, read_effect(m1.cpu, op, true, v as u16))
            } else {
                let (v, m1) = fetch_word(m);
                with_cpu(m1, tick(read_effect(m1.cpu, op, true, v), 6))
            }
        },
        Instr::Store(op, mode) => {
            let (addr, m1) = effective(m, mode);
            store(m1, stored_narrow(m1.cpu, op), addr, stored_value(m1.cpu, op))
        },
        Instr::Modify(op, mode) => {
            let (addr, m1) = effective(m, mode);
            let (v, m2) = load(m1, acc_narrow(m1.cpu), addr);
            let m3 = store(m2, acc_narrow(m2.cpu), addr, modified_value(m2.cpu, op, v));
            with_cpu(m3, tick(Cpu65816 { p: modified_flags(m3.cpu, op, v), ..m3.cpu }, 6))
        },
        Instr::ModifyAcc(op) => {
            let narrow = acc_narrow(c);
            let v = narrowed(narrow, c.a);
            with_cpu(
                m,
                tick(
                    Cpu65816 {
                        a: acc_stored(narrow, c.a, modified_value(c, op, v)),
                        p: modified_flags(c, op, v),
                        ..c
                    },
                    6,
                ),
            )
        },
        Instr::Branch(mask, set) => branched(m, has_flag(c.p, mask) == set),
        Instr::BranchAlways => branched(m, true),
        Instr::BranchLong => {
            let (off, m1) = fetch_word(m);
            ticked(jumped(m1, wrap16(m1.cpu.pc + off)), 6)
        },
        Instr::Jump(j) => jump_effect(m, j),
        Instr::Flag(mask, on) => with_cpu(
            m,
            tick(Cpu65816 { p: with_flag(c.p, mask, on), ..c }, 6),
        ),
        Instr::Transfer(t) => with_cpu(m, tick(transferred(c, t), 6)),
        Instr::Push(r) => pushed(m, r),
        Instr::Pull(r) => pulled(m, r),
        Instr::PushAbs => {
            let (v, m1) = fetch_word(m);
            push_word(m1, v)
        },
        Instr::PushInd => {
            let (off, m1) = fetch_byte(m);
            let (v, m2) = read_word(m1, wrap16(m1.cpu.d + off) as u32);
            push_word(m2, v)
        },
        Instr::PushRel => {
            let (off, m1) = fetch_word(m);
            push_word(m1, wrap16(m1.cpu.pc + off))
        },
        Instr::Count(is_x, up) => {
            let n = index_narrow(c);
            let v = counted(n, if is_x { c.x } else { c.y }, up);
            let p = flags_nz(c.p, n, v as int);
            with_cpu(
                m,
                tick(
                    if is_x {
                        Cpu65816 { x: v, p, ..c }
                    } else {
                        Cpu65816 { y: v, p, ..c }
                    },
                    6,
                ),
            )
        },
        Instr::Mask(set) => {
            let (mask, m1) = fetch_byte(m);
            with_cpu(m1, tick(with_status(m1.cpu, with_flag(m1.cpu.p, mask, set)), 6))
        },
        Instr::ExchangeCarry => with_cpu(m, tick(carry_exchanged(c), 6)),
        Instr::ExchangeBytes => with_cpu(
            m,
            tick(
                Cpu65816 {
                    a: word(high_byte(c.a), low_byte(c.a)),
                    p: flags_nz(c.p, true, high_byte(c.a) as int),
                    ..c
                },
                6,
            ),
        ),
        Instr::Move(down) => block_moved(m, down),
        Instr::Nop => ticked(m, 6),
        Instr::Wait => with_cpu(m, Cpu65816 { waiting: true, ..c }),
        Instr::Stop => with_cpu(m, Cpu65816 { stopped: true, ..c }),
        Instr::Wdm => fetch_byte(m).1,
        Instr::Break => interrupted(
            fetch_byte(m).1,
            if c.emulation {
                0xFFFE
            } else {
                0xFFE6
            },
        ),
        Instr::Coprocessor => interrupted(
            fetch_byte(m).1,
            if c.emulation {
                0xFFF4
            } else {
                0xFFE4
            },
        ),
    }
}

/// Execute the instruction `op`, whose byte has been fetched.
pub open spec fn executed<B: AddressSpace>(m: Machine<B>, op: u8) -> Machine<B> {
    instr_effect(ticked(m, 6), decoded(op))
}

/// A rising edge of the NMI line latches a pending NMI.
pub open spec fn nmi_latched(c: Cpu65816) -> Cpu65816 {
    Cpu65816 {
        nmi_pending: c.nmi_pending || (c.nmi_line && !c.nmi_prev),
        nmi_prev: c.nmi_line,
        ..c
    }
}

pub open spec fn irq_active(c: Cpu65816) -> bool {
    c.irq_line && !has_flag(c.p, FLAG_I)
}

pub open spec fn irq_vector(c: Cpu65816) -> u32 {
    if c.emulation {
        0xFFFE
    } else {
        0xFFEE
    }
}

pub open spec fn nmi_vector(c: Cpu65816) -> u32 {
    if c.emulation {
        0xFFFA
    } else {
        0xFFEA
    }
}

/// One step of a processor that is not waiting: stay stopped, enter an
/// interrupt, or fetch and execute an instruction.
pub open spec fn awake_step<B: AddressSpace>(m: Machine<B>) -> Machine<B> {
    if m.cpu.stopped {
        ticked(m, 6)
    } else if m.cpu.nmi_pending {
        let m1 = with_cpu(m, Cpu65816 { nmi_pending: false, ..m.cpu });
        ticked(interrupted(m1, nmi_vector(m.cpu)), 42)
    } else if irq_active(m.cpu) {
        ticked(interrupted(m, irq_vector(m.cpu)), 42)
    } else {
        let (op, m1) = fetch_byte(m);
        executed(m1, op)
    }
}

/// One step of the processor.
#[verifier::opaque]
pub open spec fn stepped<B: AddressSpace>(m: Machine<B>) -> Machine<B> {
    let c = nmi_latched(m.cpu);
    if !c.waiting {
        awake_step(with_cpu(m, c))
    } else if c.nmi_pending || irq_active(c) {
        awake_step(with_cpu(m, tick(Cpu65816 { waiting: false, ..c }, 6)))
    } else {
        with_cpu(m, tick(c, 6))
    }
}

/// The machine after a reset.
pub open spec fn reset_effect<B: AddressSpace>(m: Machine<B>) -> Machine<B> {
    let (pc, m1) = read_word(m, 0xFFFC);
    Machine {
        cpu: Cpu65816 {
            emulation: true,
            p: FLAG_M | FLAG_X | FLAG_I,
            s: 0x01FF,
            pbr: 0,
            dbr: 0,
            d: 0,
            waiting: false,
            stopped: false,
            pc,
            cycles: 0,
            ..m.cpu
        },
        mem: m1.mem,
    }
}

} // verus!
