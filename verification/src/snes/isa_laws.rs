//! Laws of the instruction set: what a step does, by the opcode at the program
//! counter.

use vstd::prelude::*;

use crate::snes::address_space::AddressSpace;
use crate::snes::cpu::Cpu65816;
use crate::snes::cpu_model::{
    acc_loaded, acc_stored, accumulate, add_with_carry, awake_step, binary_add, binary_subtract,
    borrow, column_mode, decimal_add16, decimal_add8, decimal_subtract16, decimal_subtract8,
    decoded, digit_adjusted, digit_borrowed, effective, fetch_byte, flags_compared, instr_effect,
    load, modified_flags, modified_value, modulus, nmi_latched, operand_narrow, read_effect, row_op,
    sign_bound, stepped, store, subtract_with_carry, with_cpu, with_flag, Instr, Machine, Mode,
    ModifyOp, ReadOp, Sum,
};
use crate::snes::isa::{
    absolute_operand, advanced, as_signed, byte_acc, byte_index, carry, changed, code, code_word,
    compared, decimal, direct_operand, fetched, holds, is_decimal, long_operand,
    long_pointer_operand, part, pointer_operand, range, ready, regular, regular_operand, row_result,
    stack_operand, stack_pointer_operand, taken, tells, tested, value_at, value_put, value_read,
    Operand,
};

verus! {

// ── Fetching ──

/// The machine after so many bytes of its instruction were fetched.
pub open spec fn begun<B: AddressSpace>(m: Machine<B>, bytes: nat, cycles: int) -> Machine<B> {
    Machine { cpu: advanced(m.cpu, bytes as int, cycles), mem: fetched(m, bytes) }
}

pub proof fn lemma_fetch<B: AddressSpace>(m: Machine<B>, k: nat, cycles: int)
    requires
        0 <= cycles <= 60,
        m.cpu.cycles <= u64::MAX - 60,
    ensures
        fetch_byte(begun(m, k, cycles)) == (code(m, k), begun(m, k + 1, cycles)),
{
    let pc = (m.cpu.pc + k) % 0x1_0000;
    assert((pc + 1) % 0x1_0000 == (m.cpu.pc + (k + 1)) % 0x1_0000);
}

pub proof fn lemma_step<B: AddressSpace>(m: Machine<B>)
    requires
        ready(m),
    ensures
        stepped(m) == instr_effect(begun(m, 1, 6), decoded(code(m, 0))),
{
    reveal(stepped);
    let c = nmi_latched(m.cpu);
    let m0 = with_cpu(m, c);
    assert(m0 == begun(m, 0, 0));
    lemma_fetch(m, 0, 0);
    assert(awake_step(m0) == stepped(m));
}

// ── Flags ──

pub proof fn lemma_nz(p: u8, n: bool, z: bool)
    by (bit_vector)
    ensures
        with_flag(with_flag(p, 0x80, n), 0x02, z) & 0x7D == p & 0x7D,
        (with_flag(with_flag(p, 0x80, n), 0x02, z) & 0x80 != 0) == n,
        (with_flag(with_flag(p, 0x80, n), 0x02, z) & 0x02 != 0) == z,
        with_flag(with_flag(p, 0x80, n), 0x02, z) & 0x7C == p & 0x7C,
        with_flag(with_flag(p, 0x80, n), 0x02, z) & 0x01 == p & 0x01,
        with_flag(with_flag(p, 0x80, n), 0x02, z) & 0x40 == p & 0x40,
        with_flag(with_flag(p, 0x80, n), 0x02, z) & 0x3C == p & 0x3C,
{
}

pub proof fn lemma_flag(p: u8, on: bool)
    by (bit_vector)
    ensures
        with_flag(p, 0x01, on) & 0xFE == p & 0xFE,
        with_flag(p, 0x01, on) & 0x7C == p & 0x7C,
        with_flag(p, 0x01, on) & 0x3C == p & 0x3C,
        (with_flag(p, 0x01, on) & 0x01 != 0) == on,
        with_flag(p, 0x02, on) & 0xFD == p & 0xFD,
        (with_flag(p, 0x02, on) & 0x02 != 0) == on,
        with_flag(p, 0x04, on) & 0xFB == p & 0xFB,
        (with_flag(p, 0x04, on) & 0x04 != 0) == on,
        with_flag(p, 0x08, on) & 0xF7 == p & 0xF7,
        (with_flag(p, 0x08, on) & 0x08 != 0) == on,
        with_flag(p, 0x40, on) & 0xBF == p & 0xBF,
        with_flag(p, 0x40, on) & 0x3C == p & 0x3C,
        with_flag(p, 0x40, on) & 0x01 == p & 0x01,
        (with_flag(p, 0x40, on) & 0x40 != 0) == on,
{
}

// ── Branches ──

/// The short branches: two bytes, and from there on by the signed offset if their
/// flag is as they ask. BPL and BMI ask N, BVC and BVS ask V, BCC and BCS ask C, BNE
/// and BEQ ask Z, and BRA asks nothing. A branch that is taken costs six cycles
/// more; nothing else changes.
pub proof fn law_branches<B: AddressSpace>(m: Machine<B>)
    requires
        ready(m),
        code(m, 0) == 0x10 || code(m, 0) == 0x30 || code(m, 0) == 0x50 || code(m, 0) == 0x70
            || code(m, 0) == 0x90 || code(m, 0) == 0xB0 || code(m, 0) == 0xD0 || code(m, 0) == 0xF0
            || code(m, 0) == 0x80,
    ensures
        ({
            let p = m.cpu.p;
            let op = code(m, 0);
            let goes = if op == 0x10 {
                p & 0x80 == 0
            } else if op == 0x30 {
                p & 0x80 != 0
            } else if op == 0x50 {
                p & 0x40 == 0
            } else if op == 0x70 {
                p & 0x40 != 0
            } else if op == 0x90 {
                p & 0x01 == 0
            } else if op == 0xB0 {
                p & 0x01 != 0
            } else if op == 0xD0 {
                p & 0x02 == 0
            } else if op == 0xF0 {
                p & 0x02 != 0
            } else {
                true
            };
            let offset: int = if code(m, 1) < 0x80 {
                code(m, 1) as int
            } else {
                code(m, 1) - 0x100
            };
            &&& stepped(m).mem == fetched(m, 2)
            &&& goes ==> stepped(m).cpu == advanced(m.cpu, 2 + offset, 18)
            &&& !goes ==> stepped(m).cpu == advanced(m.cpu, 2, 12)
        }),
{
    lemma_step(m);
    lemma_fetch(m, 1, 6);
    let off = code(m, 1);
    let offset: int = if off < 0x80 {
        off as int
    } else {
        off - 0x100
    };
    let pc = (m.cpu.pc + 2) % 0x1_0000;
    assert((pc + offset) % 0x1_0000 == (m.cpu.pc + (2 + offset)) % 0x1_0000);
}

/// BRL: three bytes, and from there on by the offset of sixteen bits.
pub proof fn law_long_branch<B: AddressSpace>(m: Machine<B>)
    requires
        ready(m),
        code(m, 0) == 0x82,
    ensures
        stepped(m).cpu == advanced(m.cpu, 3 + code_word(m), 12),
        stepped(m).mem == fetched(m, 3),
{
    lemma_step(m);
    lemma_fetch(m, 1, 6);
    lemma_fetch(m, 2, 6);
    let pc = (m.cpu.pc + 3) % 0x1_0000;
    assert((pc + code_word(m)) % 0x1_0000 == (m.cpu.pc + (3 + code_word(m))) % 0x1_0000);
}

// ── Operands in memory ──

/// The machine after an operand was found.
spec fn found<B: AddressSpace>(m: Machine<B>, o: Operand<B::State>) -> Machine<B> {
    Machine { cpu: advanced(m.cpu, o.bytes, 6 + o.cycles), mem: o.mem }
}

proof fn lemma_direct_modes<B: AddressSpace>(m: Machine<B>)
    requires
        ready(m),
    ensures
        ({
            let n = begun(m, 1, 6);
            let o = direct_operand(m, 0, 0);
            let ox = direct_operand(m, m.cpu.x, 6);
            let oy = direct_operand(m, m.cpu.y, 6);
            &&& effective(n, Mode::Dp) == (o.addr, found(m, o))
            &&& effective(n, Mode::DpX) == (ox.addr, found(m, ox))
            &&& effective(n, Mode::DpY) == (oy.addr, found(m, oy))
        }),
{
    lemma_fetch(m, 1, 6);
}

proof fn lemma_pointer_modes<B: AddressSpace>(m: Machine<B>)
    requires
        ready(m),
    ensures
        ({
            let n = begun(m, 1, 6);
            let o = pointer_operand(m, 0, 0, 0);
            let ox = pointer_operand(m, m.cpu.x, 6, 0);
            let oy = pointer_operand(m, 0, 0, m.cpu.y);
            &&& effective(n, Mode::DpInd) == (o.addr, found(m, o))
            &&& effective(n, Mode::DpXInd) == (ox.addr, found(m, ox))
            &&& effective(n, Mode::DpIndY) == (oy.addr, found(m, oy))
        }),
{
    lemma_fetch(m, 1, 6);
}

proof fn lemma_long_pointer_modes<B: AddressSpace>(m: Machine<B>)
    requires
        ready(m),
    ensures
        ({
            let n = begun(m, 1, 6);
            let o = long_pointer_operand(m, 0);
            let oy = long_pointer_operand(m, m.cpu.y);
            &&& effective(n, Mode::DpIndLong) == (o.addr, found(m, o))
            &&& effective(n, Mode::DpIndLongY) == (oy.addr, found(m, oy))
        }),
{
    lemma_fetch(m, 1, 6);
}

proof fn lemma_absolute_modes<B: AddressSpace>(m: Machine<B>)
    requires
        ready(m),
    ensures
        ({
            let n = begun(m, 1, 6);
            let o = absolute_operand(m, 0);
            let ox = absolute_operand(m, m.cpu.x);
            let oy = absolute_operand(m, m.cpu.y);
            &&& effective(n, Mode::Abs) == (o.addr, found(m, o))
            &&& effective(n, Mode::AbsX) == (ox.addr, found(m, ox))
            &&& effective(n, Mode::AbsY) == (oy.addr, found(m, oy))
        }),
{
    lemma_fetch(m, 1, 6);
    lemma_fetch(m, 2, 6);
}

proof fn lemma_long_modes<B: AddressSpace>(m: Machine<B>)
    requires
        ready(m),
    ensures
        ({
            let n = begun(m, 1, 6);
            let o = long_operand(m, 0);
            let ox = long_operand(m, m.cpu.x);
            &&& effective(n, Mode::AbsLong) == (o.addr, found(m, o))
            &&& effective(n, Mode::AbsLongX) == (ox.addr, found(m, ox))
        }),
{
    lemma_fetch(m, 1, 6);
    lemma_fetch(m, 2, 6);
    lemma_fetch(m, 3, 6);
}

proof fn lemma_stack_modes<B: AddressSpace>(m: Machine<B>)
    requires
        ready(m),
    ensures
        ({
            let n = begun(m, 1, 6);
            let o = stack_operand(m);
            let oy = stack_pointer_operand(m);
            &&& effective(n, Mode::Sr) == (o.addr, found(m, o))
            &&& effective(n, Mode::SrIndY) == (oy.addr, found(m, oy))
        }),
{
    lemma_fetch(m, 1, 6);
}

proof fn lemma_regular_operand<B: AddressSpace>(m: Machine<B>, low: int)
    requires
        ready(m),
        regular(low),
    ensures
        column_mode(low) is Some,
        effective(begun(m, 1, 6), column_mode(low)->0) == (
            regular_operand(m, low).addr,
            found(m, regular_operand(m, low)),
        ),
        regular_operand(m, low).cycles <= 18,
{
    lemma_direct_modes(m);
    lemma_pointer_modes(m);
    lemma_long_pointer_modes(m);
    lemma_absolute_modes(m);
    lemma_long_modes(m);
    lemma_stack_modes(m);
}

// ── Reading instructions ──

proof fn lemma_load<B: AddressSpace>(m: Machine<B>, narrow: bool, addr: u32)
    ensures
        load(m, narrow, addr).0 == value_at::<B>(m.mem, narrow, addr),
        load(m, narrow, addr).1 == (Machine::<B> {
            cpu: m.cpu,
            mem: value_read::<B>(m.mem, narrow, addr),
        }),
{
}

proof fn lemma_store<B: AddressSpace>(m: Machine<B>, narrow: bool, addr: u32, v: u16)
    ensures
        store(m, narrow, addr, v) == (Machine::<B> {
            cpu: m.cpu,
            mem: value_put::<B>(m.mem, narrow, addr, v as int),
        }),
{
}

proof fn lemma_bits_stay_narrow(x: u16, y: u16)
    by (bit_vector)
    ensures
        x < 0x100 && y < 0x100 ==> (x | y) < 0x100,
        x < 0x100 ==> (x & y) < 0x100,
        x < 0x100 && y < 0x100 ==> (x ^ y) < 0x100,
{
}

pub proof fn lemma_taken(c: Cpu65816, narrow: bool, v: u16)
    requires
        narrow ==> v < 0x100,
    ensures
        ({
            let r = acc_loaded(c, narrow, v);
            taken(c, narrow, v as int, r.a, r.p)
        }),
{
    lemma_nz(c.p, v as int >= sign_bound(narrow), v == 0);
}

pub proof fn lemma_wrapped(narrow: bool, z: int)
    requires
        -range(narrow) <= z < 2 * range(narrow),
    ensures
        z % modulus(narrow) == if z < 0 {
            z + range(narrow)
        } else if z >= range(narrow) {
            z - range(narrow)
        } else {
            z
        },
{
    if narrow {
        assert(modulus(true) == 0x100);
        assert(z % 0x100 == if z < 0 {
            z + 0x100
        } else if z >= 0x100 {
            z - 0x100
        } else {
            z
        });
    } else {
        assert(modulus(false) == 0x1_0000);
        assert(z % 0x1_0000 == if z < 0 {
            z + 0x1_0000
        } else if z >= 0x1_0000 {
            z - 0x1_0000
        } else {
            z
        });
    }
}

proof fn lemma_compared(p: u8, narrow: bool, x: u16, v: u16)
    requires
        narrow ==> x < 0x100 && v < 0x100,
    ensures
        compared(
            p,
            narrow,
            x as int,
            v as int,
            flags_compared(p, narrow, x, v),
        ),
{
    let q = with_flag(p, 0x01, x >= v);
    let w = (x - v) % modulus(narrow);
    lemma_wrapped(narrow, x - v);
    lemma_flag(p, x >= v);
    lemma_nz(q, w >= sign_bound(narrow), w == 0);
    assert(w == if x < v {
        x - v + range(narrow)
    } else {
        x - v
    });
}

proof fn lemma_accumulated(c: Cpu65816, narrow: bool, s: Sum)
    requires
        narrow ==> s.value < 0x100,
    ensures
        ({
            let r = accumulate(c, narrow, s);
            &&& holds(c, narrow, r.a, s.value as int)
            &&& tells(c.p, r.p, 0x3C, narrow, s.value as int)
            &&& r.p & 0x01 != 0 <==> s.carry
            &&& r.p & 0x40 != 0 <==> s.overflow
            &&& r == (Cpu65816 { a: r.a, p: r.p, ..c })
        }),
{
    let p1 = with_flag(c.p, 0x01, s.carry);
    let p2 = with_flag(p1, 0x40, s.overflow);
    lemma_flag(c.p, s.carry);
    lemma_flag(p1, s.overflow);
    lemma_nz(
        p2,
        s.value as int >= sign_bound(narrow),
        s.value == 0,
    );
}

proof fn lemma_binary_sum(narrow: bool, x: int, v: int, k: int)
    requires
        0 <= x < range(narrow),
        0 <= v < range(narrow),
        k == 0 || k == 1,
    ensures
        ({
            let s = binary_add(narrow, x, v, k);
            let sum = x + v + k;
            let w = if sum >= range(narrow) {
                sum - range(narrow)
            } else {
                sum
            };
            &&& s.value == w
            &&& s.carry == (sum >= range(narrow))
            &&& s.overflow == (as_signed(narrow, x) + as_signed(narrow, v) + k != as_signed(
                narrow,
                w,
            ))
        }),
{
    lemma_wrapped(narrow, x + v + k);
}

proof fn lemma_binary_difference(narrow: bool, x: int, v: int, k: int)
    requires
        0 <= x < range(narrow),
        0 <= v < range(narrow),
        k == 0 || k == 1,
    ensures
        ({
            let s = binary_subtract(narrow, x, v, k);
            let diff = x - v - (1 - k);
            let w = if diff < 0 {
                diff + range(narrow)
            } else {
                diff
            };
            &&& s.value == w
            &&& s.carry == (diff >= 0)
            &&& s.overflow == (as_signed(narrow, x) - as_signed(narrow, v) - (1 - k) != as_signed(
                narrow,
                w,
            ))
        }),
{
    lemma_wrapped(narrow, x - v - (1 - k));
}

proof fn lemma_digits(v: int)
    requires
        is_decimal(v),
    ensures
        0 <= v < 0x1_0000,
        v % 16 <= 9,
        v / 16 % 16 <= 9,
        v / 256 % 16 <= 9,
        0 <= v / 4096 <= 9,
        decimal(v) == v % 16 + 10 * (v / 16 % 16) + 100 * (v / 256 % 16) + 1000 * (v / 4096),
        v == v % 16 + 16 * (v / 16 % 16) + 256 * (v / 256 % 16) + 4096 * (v / 4096),
        v < 0x100 ==> v / 256 % 16 == 0 && v / 4096 == 0 && v / 16 == v / 16 % 16,
        v / 4096 % 16 == v / 4096,
{
    reveal(is_decimal);
    reveal(decimal);
    let q1 = v / 16;
    let q2 = v / 256;
    let q3 = v / 4096;
    vstd::arithmetic::div_mod::lemma_div_denominator(v, 16, 16);
    vstd::arithmetic::div_mod::lemma_div_denominator(v, 256, 16);
    assert(q2 == q1 / 16);
    assert(q3 == q2 / 16);
    assert(v == 16 * q1 + v % 16);
    assert(q1 == 16 * q2 + q1 % 16);
    assert(q2 == 16 * q3 + q2 % 16);
}

proof fn lemma_number(d0: int, d1: int, d2: int, d3: int)
    requires
        0 <= d0 <= 9,
        0 <= d1 <= 9,
        0 <= d2 <= 9,
        0 <= d3 <= 9,
    ensures
        ({
            let v = d0 + 16 * d1 + 256 * d2 + 4096 * d3;
            &&& is_decimal(v)
            &&& decimal(v) == d0 + 10 * d1 + 100 * d2 + 1000 * d3
        }),
{
    reveal(is_decimal);
    reveal(decimal);
    let v = d0 + 16 * d1 + 256 * d2 + 4096 * d3;
    assert(v / 16 == d1 + 16 * d2 + 256 * d3);
    assert(v / 256 == d2 + 16 * d3);
}

proof fn lemma_decimal_byte_sum(x: int, v: int, k: int)
    requires
        is_decimal(x),
        is_decimal(v),
        x < 0x100,
        v < 0x100,
        k == 0 || k == 1,
    ensures
        ({
            let s = decimal_add8(x, v, k);
            let sum = decimal(x) + decimal(v) + k;
            &&& s.value == 16 * (sum / 10 % 16) + sum % 10
            &&& s.value < 0x100
            &&& s.carry == (sum >= 100)
        }),
{
    lemma_digits(x);
    lemma_digits(v);
    let lo = x % 16 + v % 16 + k;
    let tens = x / 16 + v / 16;
    let sum = 10 * tens + lo;
    if lo > 9 {
        assert(sum / 10 == tens + 1);
        assert(sum % 10 == lo - 10);
        assert((lo + 6) % 16 == lo - 10);
    } else {
        assert(sum / 10 == tens);
        assert(sum % 10 == lo);
    }
}

proof fn lemma_decimal_digit(a: int, b: int, k: int)
    requires
        0 <= a <= 9,
        0 <= b <= 9,
        k == 0 || k == 1,
    ensures
        ({
            let n = digit_adjusted(a + b + k);
            &&& 0 <= n % 16 <= 9
            &&& n / 16 == 0 || n / 16 == 1
            &&& n % 16 + 10 * (n / 16) == a + b + k
        }),
{
}

proof fn lemma_decimal_word_sum(x: int, v: int, k: int)
    requires
        is_decimal(x),
        is_decimal(v),
        k == 0 || k == 1,
    ensures
        ({
            let s = decimal_add16(x, v, k);
            let sum = decimal(x) + decimal(v) + k;
            &&& is_decimal(s.value as int)
            &&& decimal(s.value as int) == sum % 10000
            &&& s.carry == (sum >= 10000)
        }),
{
    lemma_digits(x);
    lemma_digits(v);
    let n0 = digit_adjusted(x % 16 + v % 16 + k);
    lemma_decimal_digit(x % 16, v % 16, k);
    let n1 = digit_adjusted(x / 16 % 16 + v / 16 % 16 + n0 / 16);
    lemma_decimal_digit(x / 16 % 16, v / 16 % 16, n0 / 16);
    let n2 = digit_adjusted(x / 256 % 16 + v / 256 % 16 + n1 / 16);
    lemma_decimal_digit(x / 256 % 16, v / 256 % 16, n1 / 16);
    let n3 = digit_adjusted(x / 4096 % 16 + v / 4096 % 16 + n2 / 16);
    lemma_decimal_digit(x / 4096 % 16, v / 4096 % 16, n2 / 16);
    lemma_number(n0 % 16, n1 % 16, n2 % 16, n3 % 16);
    lemma_digits_carried(
        decimal(x) + decimal(v) + k,
        n0 % 16 + 10 * (n1 % 16) + 100 * (n2 % 16) + 1000 * (n3 % 16),
        n3 / 16,
    );
    assert(decimal_add16(x, v, k).value == n0 % 16 + 16 * (n1 % 16) + 256
        * (n2 % 16) + 4096 * (n3 % 16));
}

proof fn lemma_digits_carried(sum: int, low: int, over: int)
    requires
        sum == low + 10000 * over,
        0 <= low < 10000,
        over == 0 || over == 1,
    ensures
        sum % 10000 == low,
        (over != 0) == (sum >= 10000),
{
}

proof fn lemma_decimal_borrow(a: int, b: int, k: int)
    requires
        0 <= a <= 9,
        0 <= b <= 9,
        k == 0 || k == 1,
    ensures
        ({
            let n = a - b - k;
            let d = digit_borrowed(n);
            let next = borrow(n);
            &&& 0 <= d <= 9
            &&& next == 0 || next == 1
            &&& d - 10 * next == n
        }),
{
}

proof fn lemma_decimal_byte_difference(x: int, v: int, k: int)
    requires
        is_decimal(x),
        is_decimal(v),
        x < 0x100,
        v < 0x100,
        k == 0 || k == 1,
    ensures
        ({
            let s = decimal_subtract8(x, v, k);
            let diff = decimal(x) - decimal(v) - (1 - k);
            &&& s.value < 0x100
            &&& is_decimal(s.value as int)
            &&& decimal(s.value as int) == if diff >= 0 {
                diff
            } else {
                diff + 100
            }
            &&& s.carry == (diff >= 0)
        }),
{
    lemma_digits(x);
    lemma_digits(v);
    let n0 = x % 16 - v % 16 - (1 - k);
    let n1 = x / 16 - v / 16 - borrow(n0);
    lemma_decimal_borrow(x % 16, v % 16, 1 - k);
    lemma_decimal_borrow(x / 16, v / 16, borrow(n0));
    lemma_number(
        digit_borrowed(n0),
        digit_borrowed(n1),
        0,
        0,
    );
}

proof fn lemma_decimal_word_difference(x: int, v: int, k: int)
    requires
        is_decimal(x),
        is_decimal(v),
        k == 0 || k == 1,
    ensures
        ({
            let s = decimal_subtract16(x, v, k);
            let diff = decimal(x) - decimal(v) - (1 - k);
            &&& is_decimal(s.value as int)
            &&& decimal(s.value as int) == if diff >= 0 {
                diff
            } else {
                diff + 10000
            }
            &&& s.carry == (diff >= 0)
        }),
{
    lemma_digits(x);
    lemma_digits(v);
    let n0 = x % 16 - v % 16 - (1 - k);
    let b0 = borrow(n0);
    lemma_decimal_borrow(x % 16, v % 16, 1 - k);
    let n1 = x / 16 % 16 - v / 16 % 16 - b0;
    let b1 = borrow(n1);
    lemma_decimal_borrow(x / 16 % 16, v / 16 % 16, b0);
    let n2 = x / 256 % 16 - v / 256 % 16 - b1;
    let b2 = borrow(n2);
    lemma_decimal_borrow(x / 256 % 16, v / 256 % 16, b1);
    let n3 = x / 4096 % 16 - v / 4096 % 16 - b2;
    lemma_decimal_borrow(x / 4096 % 16, v / 4096 % 16, b2);
    lemma_number(
        digit_borrowed(n0),
        digit_borrowed(n1),
        digit_borrowed(n2),
        digit_borrowed(n3),
    );
}

proof fn lemma_decimal_rows(row: int, c: Cpu65816, v: u16)
    requires
        row == 3 || row == 7,
        c.p & 0x08 != 0,
        byte_acc(c) ==> v < 0x100,
        is_decimal(part(byte_acc(c), c.a)),
        is_decimal(v as int),
    ensures
        ({
            let r = read_effect(c, row_op(row), false, v);
            let t = read_effect(c, row_op(row), true, v);
            &&& row_result(row, c, v as int, r.a, r.p)
            &&& t == r
        }),
{
    reveal(row_result);
    let narrow = byte_acc(c);
    let x = part(narrow, c.a);
    let k = carry(c.p);
    if row == 3 {
        if narrow {
            lemma_decimal_byte_sum(x, v as int, k);
        } else {
            lemma_decimal_word_sum(x, v as int, k);
        }
        lemma_accumulated(c, narrow, add_with_carry(narrow, true, x, v as int, k));
    } else {
        if narrow {
            lemma_decimal_byte_difference(x, v as int, k);
        } else {
            lemma_decimal_word_difference(x, v as int, k);
        }
        lemma_accumulated(c, narrow, subtract_with_carry(narrow, true, x, v as int, k));
    }
}

proof fn lemma_row_result(row: int, c: Cpu65816, immediate: bool, v: u16)
    requires
        0 <= row < 8,
        row != 4,
        byte_acc(c) ==> v < 0x100,
    ensures
        ({
            let r = read_effect(c, row_op(row), immediate, v);
            &&& row_result(row, c, v as int, r.a, r.p)
            &&& r == (Cpu65816 { a: r.a, p: r.p, ..c })
        }),
{
    reveal(row_result);
    let narrow = byte_acc(c);
    let x = part(narrow, c.a) as u16;
    lemma_bits_stay_narrow(x, v);
    if (row == 3 || row == 7) && c.p & 0x08 != 0 && is_decimal(x as int) && is_decimal(v as int) {
        lemma_decimal_rows(row, c, v);
    }
    if row <= 2 {
        lemma_taken(
            c,
            narrow,
            if row == 0 {
                x | v
            } else if row == 1 {
                x & v
            } else {
                x ^ v
            },
        );
    } else if row == 3 {
        if c.p & 0x08 == 0 {
            lemma_binary_sum(narrow, x as int, v as int, carry(c.p));
            lemma_accumulated(
                c,
                narrow,
                binary_add(narrow, x as int, v as int, carry(c.p)),
            );
        }
    } else if row == 5 {
        lemma_taken(c, narrow, v);
    } else if row == 6 {
        lemma_compared(c.p, narrow, x, v);
    } else if c.p & 0x08 == 0 {
        lemma_binary_difference(narrow, x as int, v as int, carry(c.p));
        lemma_accumulated(
            c,
            narrow,
            binary_subtract(narrow, x as int, v as int, carry(c.p)),
        );
    }
}

proof fn lemma_row_depends(row: int, c: Cpu65816, d: Cpu65816, v: int, a: u16, q: u8)
    requires
        c.a == d.a,
        c.p == d.p,
        c.emulation == d.emulation,
    ensures
        row_result(row, c, v, a, q) == row_result(row, d, v, a, q),
{
    reveal(row_result);
}

/// ORA, AND, EOR, ADC, LDA, CMP and SBC (rows 0 to 3 and 5 to 7 of the opcodes)
/// with an operand in memory: the operand stands where the low five bits of the
/// opcode say, is as wide as the accumulator, and gives the new accumulator and
/// flags. No other register changes but the program counter.
pub proof fn law_reads<B: AddressSpace>(m: Machine<B>)
    requires
        ready(m),
        regular(code(m, 0) as int % 32),
        code(m, 0) as int / 32 != 4,
    ensures
        ({
            let op = code(m, 0) as int;
            let o = regular_operand(m, op % 32);
            let v = value_at::<B>(o.mem, byte_acc(m.cpu), o.addr);
            let r = stepped(m);
            &&& row_result(op / 32, m.cpu, v, r.cpu.a, r.cpu.p)
            &&& r.cpu == (Cpu65816 {
                a: r.cpu.a,
                p: r.cpu.p,
                ..advanced(m.cpu, o.bytes, 6 + o.cycles)
            })
            &&& r.mem == value_read::<B>(o.mem, byte_acc(m.cpu), o.addr)
        }),
{
    let op = code(m, 0) as int;
    let o = regular_operand(m, op % 32);
    lemma_step(m);
    lemma_regular_operand(m, op % 32);
    let n = found(m, o);
    lemma_load(n, byte_acc(m.cpu), o.addr);
    let v = load(n, byte_acc(m.cpu), o.addr).0;
    lemma_row_result(op / 32, n.cpu, false, v);
    lemma_row_depends(op / 32, n.cpu, m.cpu, v as int, stepped(m).cpu.a, stepped(m).cpu.p);
}

/// The same seven instructions with the operand in the instruction itself.
pub proof fn law_immediates<B: AddressSpace>(m: Machine<B>)
    requires
        ready(m),
        code(m, 0) as int % 32 == 0x09,
        code(m, 0) as int / 32 != 4,
    ensures
        ({
            let op = code(m, 0) as int;
            let narrow = byte_acc(m.cpu);
            let v = if narrow {
                code(m, 1) as int
            } else {
                code_word(m)
            };
            let r = stepped(m);
            &&& row_result(op / 32, m.cpu, v, r.cpu.a, r.cpu.p)
            &&& r.cpu == (Cpu65816 {
                a: r.cpu.a,
                p: r.cpu.p,
                ..if narrow {
                    advanced(m.cpu, 2, 6)
                } else {
                    advanced(m.cpu, 3, 12)
                }
            })
            &&& r.mem == fetched(
                m,
                if narrow {
                    2
                } else {
                    3
                },
            )
        }),
{
    let op = code(m, 0) as int;
    lemma_immediate_decoded(code(m, 0));
    lemma_step(m);
    lemma_fetch(m, 1, 6);
    lemma_fetch(m, 2, 6);
    let n = if byte_acc(m.cpu) {
        begun(m, 2, 6)
    } else {
        begun(m, 3, 6)
    };
    let v = if byte_acc(m.cpu) {
        code(m, 1) as u16
    } else {
        code_word(m) as u16
    };
    let e = read_effect(n.cpu, row_op(op / 32), true, v);
    lemma_row_result(op / 32, n.cpu, true, v);
    lemma_row_depends(op / 32, n.cpu, m.cpu, v as int, e.a, e.p);
}

proof fn lemma_immediate_decoded(op: u8)
    requires
        op as int % 32 == 0x09,
        op as int / 32 != 4,
    ensures
        decoded(op) == Instr::Immediate(row_op(op as int / 32)),
{
}

/// STA (row 4) writes the accumulator, as wide as it is, where the low five bits of
/// the opcode say.
pub proof fn law_accumulator_is_stored<B: AddressSpace>(m: Machine<B>)
    requires
        ready(m),
        regular(code(m, 0) as int % 32),
        code(m, 0) as int / 32 == 4,
    ensures
        ({
            let o = regular_operand(m, code(m, 0) as int % 32);
            &&& stepped(m).cpu == advanced(m.cpu, o.bytes, 6 + o.cycles)
            &&& stepped(m).mem == value_put::<B>(o.mem, byte_acc(m.cpu), o.addr, m.cpu.a as int)
        }),
{
    let op = code(m, 0) as int;
    let o = regular_operand(m, op % 32);
    lemma_step(m);
    lemma_regular_operand(m, op % 32);
    lemma_store(found(m, o), byte_acc(m.cpu), o.addr, m.cpu.a);
}

// ── Index registers, BIT and the other stores ──

/// The operand of an instruction outside the regular part: in the direct page or
/// absolute, with or without an index.
pub open spec fn plain_operand<B: AddressSpace>(m: Machine<B>, op: int) -> Operand<B::State> {
    if op == 0x96 || op == 0xB6 {
        direct_operand(m, m.cpu.y, 6)
    } else if op == 0xBE {
        absolute_operand(m, m.cpu.y)
    } else if op % 32 < 0x08 {
        direct_operand(m, 0, 0)
    } else if op % 32 < 0x10 || op == 0x9C {
        absolute_operand(m, 0)
    } else if op % 32 < 0x18 {
        direct_operand(m, m.cpu.x, 6)
    } else {
        absolute_operand(m, m.cpu.x)
    }
}

proof fn lemma_index_read<B: AddressSpace>(m: Machine<B>, rop: ReadOp, mode: Mode, o: Operand<B::State>)
    requires
        ready(m),
        decoded(code(m, 0)) == Instr::Read(rop, mode),
        effective(begun(m, 1, 6), mode) == (o.addr, found(m, o)),
    ensures
        ({
            let narrow = operand_narrow(m.cpu, rop);
            let v = value_at::<B>(o.mem, narrow, o.addr);
            &&& stepped(m).cpu == read_effect(found(m, o).cpu, rop, false, v as u16)
            &&& stepped(m).mem == value_read::<B>(o.mem, narrow, o.addr)
            &&& 0 <= v < range(narrow)
        }),
{
    lemma_step(m);
    let narrow = operand_narrow(m.cpu, rop);
    lemma_load(found(m, o), narrow, o.addr);
}

/// LDX and LDY from memory: the register takes the operand, as wide as the index
/// registers are, and N and Z tell of it.
pub proof fn law_index_loads<B: AddressSpace>(m: Machine<B>)
    requires
        ready(m),
        code(m, 0) == 0xA6 || code(m, 0) == 0xB6 || code(m, 0) == 0xAE || code(m, 0) == 0xBE
            || code(m, 0) == 0xA4 || code(m, 0) == 0xB4 || code(m, 0) == 0xAC || code(m, 0) == 0xBC,
    ensures
        ({
            let op = code(m, 0) as int;
            let o = plain_operand(m, op);
            let narrow = byte_index(m.cpu);
            let v = value_at::<B>(o.mem, narrow, o.addr);
            let r = stepped(m);
            let after = advanced(m.cpu, o.bytes, 6 + o.cycles);
            &&& op % 4 == 2 ==> r.cpu == (Cpu65816 { x: v as u16, p: r.cpu.p, ..after })
            &&& op % 4 == 0 ==> r.cpu == (Cpu65816 { y: v as u16, p: r.cpu.p, ..after })
            &&& tells(m.cpu.p, r.cpu.p, 0x7D, narrow, v)
            &&& r.mem == value_read::<B>(o.mem, narrow, o.addr)
        }),
{
    let op = code(m, 0);
    let o = plain_operand(m, op as int);
    lemma_direct_modes(m);
    lemma_absolute_modes(m);
    let rop = if op as int % 4 == 2 {
        ReadOp::Ldx
    } else {
        ReadOp::Ldy
    };
    let mode = if op == 0xB6 {
        Mode::DpY
    } else if op == 0xBE {
        Mode::AbsY
    } else if op == 0xB4 {
        Mode::DpX
    } else if op == 0xBC {
        Mode::AbsX
    } else if op == 0xA6 || op == 0xA4 {
        Mode::Dp
    } else {
        Mode::Abs
    };
    lemma_index_read(m, rop, mode, o);
    let narrow = byte_index(m.cpu);
    let v = value_at::<B>(o.mem, narrow, o.addr);
    lemma_nz(m.cpu.p, v >= sign_bound(narrow), v == 0);
}

/// CPX and CPY with memory, and BIT with memory: only the flags change.
pub proof fn law_memory_tests<B: AddressSpace>(m: Machine<B>)
    requires
        ready(m),
        code(m, 0) == 0xE4 || code(m, 0) == 0xEC || code(m, 0) == 0xC4 || code(m, 0) == 0xCC
            || code(m, 0) == 0x24 || code(m, 0) == 0x34 || code(m, 0) == 0x2C || code(m, 0) == 0x3C,
    ensures
        ({
            let op = code(m, 0) as int;
            let o = plain_operand(m, op);
            let bit = op < 0x80;
            let narrow = if bit {
                byte_acc(m.cpu)
            } else {
                byte_index(m.cpu)
            };
            let v = value_at::<B>(o.mem, narrow, o.addr);
            let q = stepped(m).cpu.p;
            &&& bit ==> tested(m.cpu, narrow, v, q)
            &&& op >= 0xE0 ==> compared(m.cpu.p, narrow, part(narrow, m.cpu.x), v, q)
            &&& 0xC0 <= op < 0xE0 ==> compared(m.cpu.p, narrow, part(narrow, m.cpu.y), v, q)
            &&& stepped(m).cpu == (Cpu65816 { p: q, ..advanced(m.cpu, o.bytes, 6 + o.cycles) })
            &&& stepped(m).mem == value_read::<B>(o.mem, narrow, o.addr)
        }),
{
    let op = code(m, 0);
    let o = plain_operand(m, op as int);
    lemma_direct_modes(m);
    lemma_absolute_modes(m);
    let rop = if op < 0x80 {
        ReadOp::Bit
    } else if op >= 0xE0 {
        ReadOp::Cpx
    } else {
        ReadOp::Cpy
    };
    let mode = if op == 0x34 {
        Mode::DpX
    } else if op == 0x3C {
        Mode::AbsX
    } else if op == 0xE4 || op == 0xC4 || op == 0x24 {
        Mode::Dp
    } else {
        Mode::Abs
    };
    lemma_index_read(m, rop, mode, o);
    if op < 0x80 {
        let v = value_at::<B>(o.mem, byte_acc(m.cpu), o.addr);
        lemma_tested(found(m, o).cpu, v as u16);
    } else {
        let narrow = byte_index(m.cpu);
        let v = value_at::<B>(o.mem, narrow, o.addr);
        lemma_compared(m.cpu.p, narrow, part(narrow, m.cpu.x) as u16, v as u16);
        lemma_compared(m.cpu.p, narrow, part(narrow, m.cpu.y) as u16, v as u16);
    }
}

proof fn lemma_tested(c: Cpu65816, v: u16)
    requires
        byte_acc(c) ==> v < 0x100,
    ensures
        ({
            let r = read_effect(c, ReadOp::Bit, false, v);
            &&& tested(c, byte_acc(c), v as int, r.p)
            &&& r == (Cpu65816 { p: r.p, ..c })
        }),
{
    let narrow = byte_acc(c);
    let x = part(narrow, c.a) as u16;
    let n = v as int >= sign_bound(narrow);
    let o = (v as int / (sign_bound(narrow) / 2)) % 2 == 1;
    let z = x & v == 0;
    lemma_three_flags(c.p, n, o, z);
    if narrow {
        assert(v as int / 0x80 == 1 <==> v >= 0x80);
    } else {
        assert(v as int / 0x8000 == 1 <==> v >= 0x8000);
    }
}

proof fn lemma_three_flags(p: u8, n: bool, o: bool, z: bool)
    by (bit_vector)
    ensures
        with_flag(with_flag(with_flag(p, 0x80, n), 0x40, o), 0x02, z) & 0x3D == p & 0x3D,
        (with_flag(with_flag(with_flag(p, 0x80, n), 0x40, o), 0x02, z) & 0x80 != 0) == n,
        (with_flag(with_flag(with_flag(p, 0x80, n), 0x40, o), 0x02, z) & 0x40 != 0) == o,
        (with_flag(with_flag(with_flag(p, 0x80, n), 0x40, o), 0x02, z) & 0x02 != 0) == z,
{
}

/// LDX, LDY, CPX, CPY and BIT with the operand in the instruction. BIT then touches
/// no flag but Z.
pub proof fn law_index_immediates<B: AddressSpace>(m: Machine<B>)
    requires
        ready(m),
        code(m, 0) == 0xA2 || code(m, 0) == 0xA0 || code(m, 0) == 0xE0 || code(m, 0) == 0xC0
            || code(m, 0) == 0x89,
    ensures
        ({
            let op = code(m, 0);
            let narrow = if op == 0x89 {
                byte_acc(m.cpu)
            } else {
                byte_index(m.cpu)
            };
            let v = if narrow {
                code(m, 1) as int
            } else {
                code_word(m)
            };
            let r = stepped(m);
            let q = r.cpu.p;
            let after = if narrow {
                advanced(m.cpu, 2, 6)
            } else {
                advanced(m.cpu, 3, 12)
            };
            &&& r.mem == fetched(
                m,
                if narrow {
                    2
                } else {
                    3
                },
            )
            &&& op == 0xA2 ==> r.cpu == (Cpu65816 { x: v as u16, p: q, ..after })
            &&& op == 0xA0 ==> r.cpu == (Cpu65816 { y: v as u16, p: q, ..after })
            &&& op == 0xA2 || op == 0xA0 ==> tells(m.cpu.p, q, 0x7D, narrow, v)
            &&& op != 0xA2 && op != 0xA0 ==> r.cpu == (Cpu65816 { p: q, ..after })
            &&& op == 0xE0 ==> compared(m.cpu.p, narrow, part(narrow, m.cpu.x), v, q)
            &&& op == 0xC0 ==> compared(m.cpu.p, narrow, part(narrow, m.cpu.y), v, q)
            &&& op == 0x89 ==> q & 0xFD == m.cpu.p & 0xFD
            &&& op == 0x89 ==> (q & 0x02 != 0 <==> (part(narrow, m.cpu.a) as u16) & (v as u16) == 0)
        }),
{
    let op = code(m, 0);
    let narrow = if op == 0x89 {
        byte_acc(m.cpu)
    } else {
        byte_index(m.cpu)
    };
    let v = if narrow {
        code(m, 1) as int
    } else {
        code_word(m)
    };
    lemma_step(m);
    lemma_fetch(m, 1, 6);
    lemma_fetch(m, 2, 6);
    lemma_nz(m.cpu.p, v >= sign_bound(narrow), v == 0);
    lemma_compared(m.cpu.p, narrow, part(narrow, m.cpu.x) as u16, v as u16);
    lemma_compared(m.cpu.p, narrow, part(narrow, m.cpu.y) as u16, v as u16);
    lemma_flag(m.cpu.p, (part(narrow, m.cpu.a) as u16) & (v as u16) == 0);
}

/// STX, STY and STZ write X, Y and zero; X and Y as wide as the index registers,
/// zero as wide as the accumulator.
pub proof fn law_other_stores<B: AddressSpace>(m: Machine<B>)
    requires
        ready(m),
        code(m, 0) == 0x86 || code(m, 0) == 0x96 || code(m, 0) == 0x8E || code(m, 0) == 0x84
            || code(m, 0) == 0x94 || code(m, 0) == 0x8C || code(m, 0) == 0x64 || code(m, 0) == 0x74
            || code(m, 0) == 0x9C || code(m, 0) == 0x9E,
    ensures
        ({
            let op = code(m, 0);
            let o = plain_operand(m, op as int);
            let zero = op == 0x64 || op == 0x74 || op == 0x9C || op == 0x9E;
            let v = if zero {
                0
            } else if op == 0x86 || op == 0x96 || op == 0x8E {
                m.cpu.x as int
            } else {
                m.cpu.y as int
            };
            let narrow = if zero {
                byte_acc(m.cpu)
            } else {
                byte_index(m.cpu)
            };
            &&& stepped(m).cpu == advanced(m.cpu, o.bytes, 6 + o.cycles)
            &&& stepped(m).mem == value_put::<B>(o.mem, narrow, o.addr, v)
        }),
{
    let op = code(m, 0);
    let o = plain_operand(m, op as int);
    lemma_step(m);
    lemma_direct_modes(m);
    lemma_absolute_modes(m);
    lemma_store(found(m, o), byte_acc(m.cpu), o.addr, 0);
    lemma_store(found(m, o), byte_index(m.cpu), o.addr, m.cpu.x);
    lemma_store(found(m, o), byte_index(m.cpu), o.addr, m.cpu.y);
}

// ── Shifts, rotations and steps ──

/// The operation of a row of shifts, rotations and steps.
spec fn row_change(row: int) -> ModifyOp {
    if row == 0 {
        ModifyOp::Asl
    } else if row == 1 {
        ModifyOp::Rol
    } else if row == 2 {
        ModifyOp::Lsr
    } else if row == 3 {
        ModifyOp::Ror
    } else if row == 6 {
        ModifyOp::Dec
    } else {
        ModifyOp::Inc
    }
}

proof fn lemma_changed(row: int, c: Cpu65816, v: u16)
    requires
        0 <= row < 8,
        row != 4,
        row != 5,
        byte_acc(c) ==> v < 0x100,
    ensures
        changed(
            row,
            c.p,
            byte_acc(c),
            v as int,
            modified_value(c, row_change(row), v) as int,
            modified_flags(c, row_change(row), v),
        ),
{
    let narrow = byte_acc(c);
    let w = modified_value(c, row_change(row), v) as int;
    let shifted_out = if row <= 1 {
        v as int >= sign_bound(narrow)
    } else {
        v % 2 == 1
    };
    lemma_wrapped(narrow, 2 * v);
    lemma_wrapped(narrow, v + 1);
    lemma_wrapped(narrow, v - 1);
    lemma_flag(c.p, shifted_out);
    let q = if row <= 3 {
        with_flag(c.p, 0x01, shifted_out)
    } else {
        c.p
    };
    lemma_nz(q, w >= sign_bound(narrow), w == 0);
}

/// ASL, ROL, LSR, ROR, DEC and INC of an operand in memory: it is read, changed and
/// written back where it was.
pub proof fn law_memory_changes<B: AddressSpace>(m: Machine<B>)
    requires
        ready(m),
        code(m, 0) as int % 32 == 0x06 || code(m, 0) as int % 32 == 0x16 || code(m, 0) as int % 32
            == 0x0E || code(m, 0) as int % 32 == 0x1E,
        code(m, 0) as int / 32 != 4,
        code(m, 0) as int / 32 != 5,
    ensures
        ({
            let op = code(m, 0) as int;
            let o = plain_operand(m, op);
            let narrow = byte_acc(m.cpu);
            let v = value_at::<B>(o.mem, narrow, o.addr);
            let r = stepped(m);
            &&& r.cpu == (Cpu65816 { p: r.cpu.p, ..advanced(m.cpu, o.bytes, 12 + o.cycles) })
            &&& exists|w: int|
                #[trigger] changed(op / 32, m.cpu.p, narrow, v, w, r.cpu.p) && r.mem == value_put::<
                    B,
                >(value_read::<B>(o.mem, narrow, o.addr), narrow, o.addr, w)
        }),
{
    let op = code(m, 0) as int;
    let o = plain_operand(m, op);
    let row = op / 32;
    let mode = change_mode(op % 32);
    lemma_change_decoded(code(m, 0));
    lemma_direct_modes(m);
    lemma_absolute_modes(m);
    lemma_memory_changed(m, row, mode, o);
    let w = modified_value(
        m.cpu,
        row_change(row),
        value_at::<B>(o.mem, byte_acc(m.cpu), o.addr) as u16,
    ) as int;
    assert(changed(
        row,
        m.cpu.p,
        byte_acc(m.cpu),
        value_at::<B>(o.mem, byte_acc(m.cpu), o.addr),
        w,
        stepped(m).cpu.p,
    ));
}

spec fn change_mode(low: int) -> Mode {
    if low == 0x06 {
        Mode::Dp
    } else if low == 0x16 {
        Mode::DpX
    } else if low == 0x0E {
        Mode::Abs
    } else {
        Mode::AbsX
    }
}

proof fn lemma_change_decoded(op: u8)
    requires
        op as int % 32 == 0x06 || op as int % 32 == 0x16 || op as int % 32 == 0x0E || op as int % 32
            == 0x1E,
        op as int / 32 != 4,
        op as int / 32 != 5,
    ensures
        decoded(op) == Instr::Modify(row_change(op as int / 32), change_mode(op as int % 32)),
{
}

proof fn lemma_memory_changed<B: AddressSpace>(
    m: Machine<B>,
    row: int,
    mode: Mode,
    o: Operand<B::State>,
)
    requires
        ready(m),
        0 <= row < 8,
        row != 4,
        row != 5,
        decoded(code(m, 0)) == Instr::Modify(row_change(row), mode),
        effective(begun(m, 1, 6), mode) == (o.addr, found(m, o)),
        0 <= o.cycles <= 18,
    ensures
        ({
            let narrow = byte_acc(m.cpu);
            let v = value_at::<B>(o.mem, narrow, o.addr);
            let w = modified_value(m.cpu, row_change(row), v as u16) as int;
            let r = stepped(m);
            &&& r.cpu == (Cpu65816 { p: r.cpu.p, ..advanced(m.cpu, o.bytes, 12 + o.cycles) })
            &&& changed(row, m.cpu.p, narrow, v, w, r.cpu.p)
            &&& r.mem == value_put::<B>(
                value_read::<B>(o.mem, narrow, o.addr),
                narrow,
                o.addr,
                w,
            )
        }),
{
    let narrow = byte_acc(m.cpu);
    lemma_step(m);
    let n = found(m, o);
    lemma_load(n, narrow, o.addr);
    let v = load(n, narrow, o.addr).0;
    let n2 = load(n, narrow, o.addr).1;
    let w = modified_value(n.cpu, row_change(row), v);
    lemma_store(n2, narrow, o.addr, w);
    lemma_changed(row, m.cpu, v);
    assert(w == modified_value(m.cpu, row_change(row), v));
    assert(modified_flags(n2.cpu, row_change(row), v) == modified_flags(m.cpu, row_change(row), v));
}

/// The same of the accumulator.
pub proof fn law_accumulator_changes<B: AddressSpace>(m: Machine<B>)
    requires
        ready(m),
        code(m, 0) == 0x0A || code(m, 0) == 0x2A || code(m, 0) == 0x4A || code(m, 0) == 0x6A
            || code(m, 0) == 0x1A || code(m, 0) == 0x3A,
    ensures
        ({
            let op = code(m, 0);
            let narrow = byte_acc(m.cpu);
            let v = part(narrow, m.cpu.a);
            let r = stepped(m);
            let w = part(narrow, r.cpu.a);
            let row = if op == 0x1A {
                7
            } else if op == 0x3A {
                6
            } else {
                op as int / 32
            };
            &&& changed(row, m.cpu.p, narrow, v, w, r.cpu.p)
            &&& holds(m.cpu, narrow, r.cpu.a, w)
            &&& r.cpu == (Cpu65816 { a: r.cpu.a, p: r.cpu.p, ..advanced(m.cpu, 1, 12) })
            &&& r.mem == fetched(m, 1)
        }),
{
    let op = code(m, 0);
    let row: int = if op == 0x1A {
        7
    } else if op == 0x3A {
        6
    } else {
        op as int / 32
    };
    lemma_accumulator_decoded(op);
    lemma_accumulator_changed(m, row);
}

proof fn lemma_accumulator_changed<B: AddressSpace>(m: Machine<B>, row: int)
    requires
        ready(m),
        0 <= row < 8,
        row != 4,
        row != 5,
        decoded(code(m, 0)) == Instr::ModifyAcc(row_change(row)),
    ensures
        ({
            let narrow = byte_acc(m.cpu);
            let v = part(narrow, m.cpu.a);
            let r = stepped(m);
            let w = part(narrow, r.cpu.a);
            &&& changed(row, m.cpu.p, narrow, v, w, r.cpu.p)
            &&& holds(m.cpu, narrow, r.cpu.a, w)
            &&& r.cpu == (Cpu65816 { a: r.cpu.a, p: r.cpu.p, ..advanced(m.cpu, 1, 12) })
            &&& r.mem == fetched(m, 1)
        }),
{
    let narrow = byte_acc(m.cpu);
    let v = part(narrow, m.cpu.a) as u16;
    lemma_step(m);
    lemma_changed(row, m.cpu, v);
    let n = begun(m, 1, 6);
    let w = modified_value(n.cpu, row_change(row), v);
    assert(w == modified_value(m.cpu, row_change(row), v));
    assert(modified_flags(n.cpu, row_change(row), v) == modified_flags(m.cpu, row_change(row), v));
    assert(stepped(m).cpu.a == acc_stored(narrow, m.cpu.a, w));
    assert(narrow ==> w < 0x100);
}

proof fn lemma_accumulator_decoded(op: u8)
    requires
        op == 0x0A || op == 0x2A || op == 0x4A || op == 0x6A || op == 0x1A || op == 0x3A,
    ensures
        decoded(op) == Instr::ModifyAcc(
            row_change(
                if op == 0x1A {
                    7
                } else if op == 0x3A {
                    6
                } else {
                    op as int / 32
                },
            ),
        ),
{
}

/// TRB clears in memory the bits of the accumulator, TSB sets them; Z tells whether
/// the operand shared none.
pub proof fn law_bits_set_and_reset<B: AddressSpace>(m: Machine<B>)
    requires
        ready(m),
        code(m, 0) == 0x14 || code(m, 0) == 0x1C || code(m, 0) == 0x04 || code(m, 0) == 0x0C,
    ensures
        ({
            let op = code(m, 0);
            let o = if op == 0x14 || op == 0x04 {
                direct_operand(m, 0, 0)
            } else {
                absolute_operand(m, 0)
            };
            let narrow = byte_acc(m.cpu);
            let v = value_at::<B>(o.mem, narrow, o.addr) as u16;
            let x = part(narrow, m.cpu.a) as u16;
            let w = if op == 0x14 || op == 0x1C {
                v & !x
            } else {
                v | x
            };
            let r = stepped(m);
            &&& r.mem == value_put::<B>(
                value_read::<B>(o.mem, narrow, o.addr),
                narrow,
                o.addr,
                w as int,
            )
            &&& r.cpu == (Cpu65816 { p: r.cpu.p, ..advanced(m.cpu, o.bytes, 12 + o.cycles) })
            &&& r.cpu.p & 0xFD == m.cpu.p & 0xFD
            &&& r.cpu.p & 0x02 != 0 <==> v & x == 0
        }),
{
    let op = code(m, 0);
    let o = if op == 0x14 || op == 0x04 {
        direct_operand(m, 0, 0)
    } else {
        absolute_operand(m, 0)
    };
    let narrow = byte_acc(m.cpu);
    lemma_step(m);
    lemma_direct_modes(m);
    lemma_absolute_modes(m);
    let mop = if op == 0x14 || op == 0x1C {
        ModifyOp::Trb
    } else {
        ModifyOp::Tsb
    };
    let mode = if op == 0x14 || op == 0x04 {
        Mode::Dp
    } else {
        Mode::Abs
    };
    assert(decoded(op) == Instr::Modify(mop, mode));
    let n = found(m, o);
    lemma_load(n, narrow, o.addr);
    let v = load(n, narrow, o.addr).0;
    lemma_store(load(n, narrow, o.addr).1, narrow, o.addr, modified_value(n.cpu, mop, v));
    lemma_flag(m.cpu.p, v & (part(narrow, m.cpu.a) as u16) == 0);
}

} // verus!
