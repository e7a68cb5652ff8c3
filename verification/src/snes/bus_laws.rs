//! Laws of the SNES bus.

use vstd::prelude::*;

use crate::snes::bus::{
    bank_of, bus_after_read, bus_value, bus_written, offset_of, region, BusView, Region,
    CYCLES_PER_SCANLINE, VBLANK_LINES,
};
use crate::snes::dma::{dma_read, dma_write};
use crate::snes::icd2::{icd2_read, icd2_write};
use crate::snes::ppu_regs::ppu_write;

verus! {

/// A byte written to work memory reads back at every address that selects the
/// same byte, and no other byte of it changes.
pub proof fn law_wram_reads_back(v: BusView, addr: u32, val: u8, other: u32)
    requires
        v.wf(),
        region(addr) is Wram,
        region(other) is Wram,
    ensures
        bus_value(bus_written(v, addr, val), other) == if region(addr) == region(other) {
            val
        } else {
            bus_value(v, other)
        },
{
}

/// Work memory is seen through its own banks, and its first 8 KB also through
/// every system bank.
pub proof fn law_wram_is_mirrored(bank: u32, off: u32)
    requires
        bank < 0x40 || 0x80 <= bank < 0xC0,
        off < 0x2000,
    ensures
        region((bank * 0x1_0000 + off) as u32) == region((0x7E_0000 + off) as u32),
        region((0x7E_0000 + off) as u32) == Region::Wram(off as int),
{
}

/// The upper half of the banks mirrors the lower half.
pub proof fn law_upper_banks_mirror(addr: u32)
    requires
        addr < 0x80_0000,
    ensures
        region((addr + 0x80_0000) as u32) == region(addr),
{
    let up: u32 = (addr + 0x80_0000) as u32;
    assert(bank_of(up) == bank_of(addr) + 0x80);
    assert(offset_of(up) == offset_of(addr));
}

/// The bus after the address of the WRAM port was set.
pub open spec fn port_pointed(v: BusView, addr: int) -> BusView {
    bus_written(
        bus_written(
            bus_written(v, 0x2181, (addr % 0x100) as u8),
            0x2182,
            (addr / 0x100 % 0x100) as u8,
        ),
        0x2183,
        (addr / 0x1_0000) as u8,
    )
}

/// The WRAM port reaches every byte of work memory: with its address set, a
/// byte written to it reads back at its address and through the port, and
/// either way the address moves on to the next byte.
pub proof fn law_wram_port_reads_back(v: BusView, addr: int, val: u8)
    requires
        v.wf(),
        0 <= addr < 0x2_0000,
    ensures
        ({
            let w = bus_written(port_pointed(v, addr), 0x2180, val);
            &&& w.wram == v.wram.update(addr, val)
            &&& w.wmadd == (addr + 1) % 0x2_0000
            &&& bus_value(w, (0x7E_0000 + addr) as u32) == val
            &&& bus_value(port_pointed(w, addr), 0x2180) == val
            &&& bus_after_read(port_pointed(w, addr), 0x2180).wmadd == (addr + 1) % 0x2_0000
        }),
{
    lemma_port_pointed(v, addr);
    lemma_port_written(BusView { wmadd: addr as u32, ..v }, val);
    let w = bus_written(port_pointed(v, addr), 0x2180, val);
    lemma_port_pointed(w, addr);
    lemma_port_read(BusView { wmadd: addr as u32, ..w });
    lemma_own_bank(addr);
}

proof fn lemma_own_bank(addr: int)
    requires
        0 <= addr < 0x2_0000,
    ensures
        region((0x7E_0000 + addr) as u32) == Region::Wram(addr),
{
    let direct: u32 = (0x7E_0000 + addr) as u32;
    assert(bank_of(direct) == 0x7E + addr / 0x1_0000);
    assert(offset_of(direct) == addr % 0x1_0000);
}

proof fn lemma_port_written(v: BusView, val: u8)
    requires
        v.wmadd < v.wram.len(),
    ensures
        bus_written(v, 0x2180, val) == (BusView {
            wram: v.wram.update(v.wmadd as int, val),
            wmadd: ((v.wmadd + 1) % 0x2_0000) as u32,
            ..v
        }),
{
    assert(region(0x2180) == Region::WramPort);
}

proof fn lemma_port_read(v: BusView)
    requires
        v.wmadd < v.wram.len(),
    ensures
        bus_value(v, 0x2180) == v.wram[v.wmadd as int],
        bus_after_read(v, 0x2180).wmadd == (v.wmadd + 1) % 0x2_0000,
{
    assert(region(0x2180) == Region::WramPort);
}

proof fn lemma_port_pointed(v: BusView, addr: int)
    requires
        0 <= addr < 0x2_0000,
    ensures
        port_pointed(v, addr) == (BusView { wmadd: addr as u32, ..v }),
{
    assert(region(0x2181) == Region::WramAddress(0));
    assert(region(0x2182) == Region::WramAddress(1));
    assert(region(0x2183) == Region::WramAddress(2));
    let a = v.wmadd as int;
    let lo = addr % 0x100;
    let mid = addr / 0x100 % 0x100;
    let hi = addr / 0x1_0000;
    assert(addr == hi * 0x1_0000 + mid * 0x100 + lo);
    let a1 = a / 0x100 % 0x200 * 0x100 + lo;
    assert(bus_written(v, 0x2181, lo as u8).wmadd == a1);
    let a2 = a1 / 0x1_0000 % 2 * 0x1_0000 + 0x100 * mid + a1 % 0x100;
    assert(a1 % 0x100 == lo);
    assert(bus_written(bus_written(v, 0x2181, lo as u8), 0x2182, mid as u8).wmadd == a2);
    assert(a2 % 0x1_0000 == 0x100 * mid + lo);
}

/// Program memory cannot be written.
pub proof fn law_rom_is_read_only(v: BusView, addr: u32, val: u8)
    requires
        region(addr) is Rom,
    ensures
        bus_written(v, addr, val) == v,
{
}

/// The multiplier: two factors written, their product read.
pub proof fn law_multiplier(v: BusView, a: u8, b: u8)
    requires
        v.wf(),
    ensures
        ({
            let w = bus_written(bus_written(v, 0x4202, a), 0x4203, b);
            bus_value(w, 0x4216) + 0x100 * bus_value(w, 0x4217) == a * b
        }),
{
    let w1 = bus_written(v, 0x4202, a);
    assert(region(0x4202) == Region::CpuIo(0x4202));
    assert(region(0x4203) == Region::CpuIo(0x4203));
    assert(region(0x4216) == Region::CpuIo(0x4216));
    assert(region(0x4217) == Region::CpuIo(0x4217));
    assert(0 <= a * b <= 255 * 255) by (nonlinear_arith)
        requires
            0 <= a <= 255,
            0 <= b <= 255,
    ;
    let w = bus_written(w1, 0x4203, b);
    assert(w1.wrmpya == a);
    assert(w.rdmpy == a * b);
}

/// The divider: dividend and divisor written, quotient and remainder read. A
/// division by zero gives the largest quotient, and the dividend remains.
pub proof fn law_divider(v: BusView, n: u16, d: u8)
    requires
        v.wf(),
    ensures
        ({
            let w = bus_written(
                bus_written(
                    bus_written(v, 0x4204, (n % 0x100) as u8),
                    0x4205,
                    (n / 0x100) as u8,
                ),
                0x4206,
                d,
            );
            let quotient = bus_value(w, 0x4214) + 0x100 * bus_value(w, 0x4215);
            let remainder = bus_value(w, 0x4216) + 0x100 * bus_value(w, 0x4217);
            if d == 0 {
                quotient == 0xFFFF && remainder == n
            } else {
                quotient * d + remainder == n && 0 <= remainder < d
            }
        }),
{
    assert(region(0x4204) == Region::CpuIo(0x4204));
    assert(region(0x4205) == Region::CpuIo(0x4205));
    assert(region(0x4206) == Region::CpuIo(0x4206));
    assert(region(0x4214) == Region::CpuIo(0x4214));
    assert(region(0x4215) == Region::CpuIo(0x4215));
    assert(region(0x4216) == Region::CpuIo(0x4216));
    assert(region(0x4217) == Region::CpuIo(0x4217));
    let w1 = bus_written(v, 0x4204, (n % 0x100) as u8);
    let w2 = bus_written(w1, 0x4205, (n / 0x100) as u8);
    assert(w1.wrdiv % 0x100 == n % 0x100);
    assert(w2.wrdiv == n);
    let w = bus_written(w2, 0x4206, d);
    if d != 0 {
        vstd::arithmetic::div_mod::lemma_fundamental_div_mod(n as int, d as int);
        let q = n as int / d as int;
        let r = n as int % d as int;
        assert(0 <= q <= n) by (nonlinear_arith)
            requires
                n == d * q + r,
                0 <= r < d,
                0 <= n,
                1 <= d,
        ;
        assert(w.rddiv == q);
        assert(w.rdmpy == r);
        assert(q * d == d * q) by (nonlinear_arith);
    }
}

/// Reading the flag of the vertical blank clears it and changes nothing else
/// that it tells.
pub proof fn law_nmi_flag_is_cleared_by_reading(v: BusView)
    requires
        v.wf(),
    ensures
        ({
            let w = bus_after_read(v, 0x4210);
            &&& bus_value(w, 0x4210) < 0x80
            &&& bus_value(w, 0x4210) == bus_value(v, 0x4210) % 0x80
            &&& bus_after_read(w, 0x4210) == w
        }),
{
    assert(region(0x4210) == Region::CpuIo(0x4210));
}

/// The sound processor answers the start of an upload and its first byte by
/// echoing them.
pub proof fn law_upload_start_is_echoed(v: BusView)
    requires
        v.wf(),
        v.apu_state == 0 || v.apu_state == 2,
    ensures
        ({
            let started = bus_written(v, 0x2140, 0xCC);
            let first = bus_written(started, 0x2140, 0);
            &&& bus_value(started, 0x2140) == 0xCC
            &&& started.apu_state == 1
            &&& bus_value(first, 0x2140) == 0
            &&& first.apu_state == 1
            &&& first.apu_last_counter == 0
        }),
{
    assert(region(0x2140) == Region::ApuPort(0));
}

/// During an upload every counter that follows the last one is echoed.
pub proof fn law_upload_counters_are_echoed(v: BusView)
    requires
        v.wf(),
        v.apu_state == 1,
    ensures
        ({
            let next = ((v.apu_last_counter + 1) % 0x100) as u8;
            let w = bus_written(v, 0x2140, next);
            &&& bus_value(w, 0x2140) == next
            &&& w.apu_last_counter == next
            &&& w.apu_state == 1
        }),
{
    assert(region(0x2140) == Region::ApuPort(0));
}

/// A counter out of order, with zero in port 1, starts the program: it is
/// echoed once, and then the ports say that the sound processor is ready.
pub proof fn law_upload_ends(v: BusView, counter: u8)
    requires
        v.wf(),
        v.apu_state == 1,
        counter != (v.apu_last_counter + 1) % 0x100,
    ensures
        ({
            let w = bus_written(bus_written(v, 0x2141, 0), 0x2140, counter);
            let r = bus_after_read(w, 0x2140);
            &&& bus_value(w, 0x2140) == counter
            &&& w.apu_state == 2
            &&& bus_value(r, 0x2140) == 0xAA
            &&& bus_value(r, 0x2141) == 0xBB
        }),
{
    assert(region(0x2140) == Region::ApuPort(0));
    assert(region(0x2141) == Region::ApuPort(1));
}

/// Where everything stands. Program memory: the upper half of the banks up to $7D,
/// 32 KB of it in each, zero behind its end. Work memory: banks $7E and $7F. Nothing
/// else is in the lower half of banks $40 to $7D. The banks from $80 on repeat those
/// before.
pub proof fn law_memory_map(v: BusView, bank: int, off: int, val: u8)
    requires
        v.wf(),
        0 <= bank < 0x100,
        0 <= off < 0x1_0000,
    ensures
        ({
            let addr = (0x1_0000 * bank + off) as u32;
            let b = bank % 0x80;
            let i = 0x8000 * b + (off - 0x8000);
            let j = 0x1_0000 * (b - 0x7E) + off;
            &&& b < 0x7E && off >= 0x8000 ==> bus_value(v, addr) == (if i < v.rom.len() {
                v.rom[i]
            } else {
                0
            }) && bus_after_read(v, addr) == v && bus_written(v, addr, val) == v
            &&& b >= 0x7E ==> bus_value(v, addr) == v.wram[j] && bus_after_read(v, addr) == v
                && bus_written(v, addr, val) == (BusView { wram: v.wram.update(j, val), ..v })
            &&& b < 0x40 && off < 0x2000 ==> bus_value(v, addr) == v.wram[off] && bus_after_read(
                v,
                addr,
            ) == v && bus_written(v, addr, val) == (BusView { wram: v.wram.update(off, val), ..v })
            &&& 0x40 <= b < 0x7E && off < 0x8000 ==> bus_value(v, addr) == 0 && bus_after_read(
                v,
                addr,
            ) == v && bus_written(v, addr, val) == v
        }),
{
    let addr = (0x1_0000 * bank + off) as u32;
    assert(bank_of(addr) == bank);
    assert(offset_of(addr) == off);
}

/// The controllers and the blank flags read as they were latched.
pub proof fn law_latched_registers(v: BusView)
    requires
        v.wf(),
    ensures
        bus_value(v, 0x4218) + 0x100 * bus_value(v, 0x4219) == v.joy1,
        bus_value(v, 0x421A) + 0x100 * bus_value(v, 0x421B) == v.joy2,
        bus_value(v, 0x4210) == v.rdnmi,
        bus_value(v, 0x4211) == v.timeup,
        bus_value(v, 0x4212) == v.hvbjoy,
        bus_after_read(v, 0x4218) == v,
        bus_after_read(v, 0x4212) == v,
        ({
            let w = bus_after_read(v, 0x4211);
            w.irq_ack && bus_value(w, 0x4211) == 0 && w.rdnmi == v.rdnmi
        }),
{
    assert(region(0x4210) == Region::CpuIo(0x4210));
    assert(region(0x4211) == Region::CpuIo(0x4211));
    assert(region(0x4212) == Region::CpuIo(0x4212));
    assert(region(0x4218) == Region::CpuIo(0x4218));
    assert(region(0x4219) == Region::CpuIo(0x4219));
    assert(region(0x421A) == Region::CpuIo(0x421A));
    assert(region(0x421B) == Region::CpuIo(0x421B));
}

/// The interrupt settings: $4200 takes the enable bits, $4207 to $420A the low eight
/// bits and the ninth of the horizontal and vertical position.
pub proof fn law_interrupt_settings(v: BusView, a: u8, h: int, t: int)
    requires
        v.wf(),
        0 <= h < 0x200,
        0 <= t < 0x200,
    ensures
        bus_written(v, 0x4200, a) == (BusView { nmitimen: a, ..v }),
        bus_written(
            bus_written(v, 0x4207, (h % 0x100) as u8),
            0x4208,
            (h / 0x100) as u8,
        ) == (BusView { htime: h as u16, ..v }),
        bus_written(
            bus_written(v, 0x4209, (t % 0x100) as u8),
            0x420A,
            (t / 0x100) as u8,
        ) == (BusView { vtime: t as u16, ..v }),
{
    assert(region(0x4200) == Region::CpuIo(0x4200));
    assert(region(0x4207) == Region::CpuIo(0x4207));
    assert(region(0x4208) == Region::CpuIo(0x4208));
    assert(region(0x4209) == Region::CpuIo(0x4209));
    assert(region(0x420A) == Region::CpuIo(0x420A));
    let h1 = bus_written(v, 0x4207, (h % 0x100) as u8);
    assert(h1.htime % 0x100 == h % 0x100);
    let t1 = bus_written(v, 0x4209, (t % 0x100) as u8);
    assert(t1.vtime % 0x100 == t % 0x100);
}

/// The line counter at $213D: in the picture it counts the lines since its start and
/// stays on the last one, in the blank it goes on from line 225 to 261.
pub proof fn law_line_counter(v: BusView, line: int, rest: int)
    requires
        v.wf(),
        0 <= line,
        0 <= rest < CYCLES_PER_SCANLINE,
        v.active_display_start >= VBLANK_LINES * CYCLES_PER_SCANLINE,
        v.current_cpu_cycles == line * CYCLES_PER_SCANLINE + rest + (if v.in_vblank {
            v.active_display_start - VBLANK_LINES * CYCLES_PER_SCANLINE
        } else {
            v.active_display_start as int
        }),
    ensures
        bus_value(v, 0x213D) == (if v.in_vblank {
            if line <= 36 {
                225 + line
            } else {
                261
            }
        } else if line <= 224 {
            line
        } else {
            224
        }) % 0x100,
{
    assert(region(0x213D) == Region::Ppu(0x213D));
    let total = line * CYCLES_PER_SCANLINE + rest;
    assert(total / CYCLES_PER_SCANLINE as int == line) by {
        vstd::arithmetic::div_mod::lemma_fundamental_div_mod_converse(
            total,
            CYCLES_PER_SCANLINE as int,
            line,
            rest,
        );
    }
    assert(total >= 0) by (nonlinear_arith)
        requires
            total == line * CYCLES_PER_SCANLINE + rest,
            line >= 0,
            rest >= 0,
    ;
    if total == 0 {
        assert(line == 0) by (nonlinear_arith)
            requires
                line * CYCLES_PER_SCANLINE + rest == 0,
                line >= 0,
                rest >= 0,
                CYCLES_PER_SCANLINE > 0,
        ;
    }
}

/// The registers of the picture unit and of the Game Boy interface are reached
/// through every system bank, and a write touches nothing but the unit.
pub proof fn law_units_are_reached(v: BusView, bank: int, off: int, val: u8)
    requires
        v.wf(),
        0 <= bank < 0x40 || 0x80 <= bank < 0xC0,
    ensures
        ({
            let addr = (0x1_0000 * bank + off) as u32;
            &&& 0x2100 <= off < 0x2140 ==> bus_written(v, addr, val) == (BusView {
                ppu: ppu_write(v.ppu, off as u16, val),
                ..v
            })
            &&& 0x6000 <= off < 0x8000 ==> bus_written(v, addr, val) == (BusView {
                icd2: icd2_write(v.icd2, off as u16, val),
                ..v
            }) && bus_value(v, addr) == icd2_read(v.icd2, off as u16)
            &&& 0x4300 <= off < 0x4400 ==> bus_written(v, addr, val) == (BusView {
                dma: dma_write(v.dma, (off - 0x4300) as u16, val),
                ..v
            }) && bus_value(v, addr) == dma_read(v.dma, (off - 0x4300) as u16)
        }),
{
    let addr = (0x1_0000 * bank + off) as u32;
    if 0x2100 <= off < 0x8000 {
        assert(bank_of(addr) == bank);
        assert(offset_of(addr) == off);
    }
}

/// Outside an upload the sound processor's ports hold what it last said.
pub proof fn law_idle_sound_ports(v: BusView, port: int, val: u8)
    requires
        v.wf(),
        v.apu_state == 0 || v.apu_state == 2,
        0 <= port < 4,
        port != 0 || val != 0xCC,
    ensures
        ({
            let w = bus_written(v, (0x2140 + port) as u32, val);
            &&& w.apu_in == v.apu_in
            &&& w.apu_state == v.apu_state
            &&& w.apu_out == v.apu_out.update(port, val)
            &&& bus_value(w, (0x2140 + port) as u32) == v.apu_in[port]
        }),
{
    assert(region((0x2140 + port) as u32) == Region::ApuPort(port));
}

} // verus!
