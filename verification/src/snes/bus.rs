//! SNES memory map (LoROM layout of the Super Game Boy cartridge).
//!
//! | Bank     | Address      | Maps to                         |
//! |----------|--------------|---------------------------------|
//! | $00-$3F  | $0000-$1FFF  | WRAM (first 8 KB)               |
//! | $00-$3F  | $2100-$21FF  | PPU registers, APU, WRAM ports  |
//! | $00-$3F  | $4200-$42FF  | CPU I/O (NMI, multiply, divide) |
//! | $00-$3F  | $4300-$43FF  | DMA registers                   |
//! | $00-$3F  | $6000-$7FFF  | ICD2 registers                  |
//! | $00-$7D  | $8000-$FFFF  | ROM                             |
//! | $7E-$7F  | $0000-$FFFF  | WRAM (128 KB)                   |
//! | $80-$FF  | *            | Mirror of $00-$7F               |

use vstd::prelude::*;

use crate::bytes::zeroed;
use crate::snes::address_space::AddressSpace;
use crate::snes::dma::{
    channels_run, dma_read, dma_write, DmaChannel, DmaController, DmaPorts, DmaRun,
};
use crate::snes::icd2::{
    icd2_after_read, icd2_initial, icd2_read, icd2_write, Icd2, Icd2View,
};
use crate::snes::ppu_regs::{ppu_initial, ppu_read, ppu_write, PpuView, SnesPpuRegs};

verus! {

pub const WRAM_BYTES: usize = 0x2_0000;
/// Master cycles per scanline.
pub const CYCLES_PER_SCANLINE: u64 = 1364;
/// Scanlines of vertical blank.
pub const VBLANK_LINES: u64 = 37;

/// The SNES side of the cartridge, without the processor.
pub struct SnesBus {
    pub rom: Vec<u8>,
    pub wram: Vec<u8>,
    pub ppu: SnesPpuRegs,
    pub dma: DmaController,
    pub icd2: Icd2,
    /// $4200: NMI and IRQ enable.
    pub nmitimen: u8,
    /// $4210: NMI flag and version.
    pub rdnmi: u8,
    /// $4211: IRQ flag.
    pub timeup: u8,
    /// $4212: blanking and joypad status.
    pub hvbjoy: u8,
    pub joy1: u16,
    pub joy2: u16,
    pub wrmpya: u8,
    pub wrmpyb: u8,
    pub wrdiv: u16,
    pub wrdivb: u8,
    /// $4214-15: quotient.
    pub rddiv: u16,
    /// $4216-17: product or remainder.
    pub rdmpy: u16,
    pub wrio: u8,
    pub htime: u16,
    pub vtime: u16,
    pub mdmaen: u8,
    pub hdmaen: u8,
    pub memsel: u8,
    /// Last bytes written to the APU ports.
    pub apu_out: [u8; 4],
    /// Bytes that the APU ports read as.
    pub apu_in: [u8; 4],
    /// Upload protocol: 0 waiting for the handshake, 1 uploading, 2 running.
    pub apu_state: u8,
    pub apu_last_counter: u8,
    pub apu_port1_val: u8,
    /// The final counter is still to be echoed once.
    pub apu_echo_pending: bool,
    pub nmi_fire_count: u64,
    /// 17-bit WRAM address of the data port $2180.
    pub wmadd: u32,
    pub active_display_start: u64,
    pub current_cpu_cycles: u64,
    pub in_vblank: bool,
    /// The IRQ flag was read since this was last cleared.
    pub irq_ack: bool,
}

/// Mathematical state of the bus.
#[verifier::ext_equal]
pub struct BusView {
    pub rom: Seq<u8>,
    pub wram: Seq<u8>,
    pub ppu: PpuView,
    pub dma: Seq<DmaChannel>,
    pub icd2: Icd2View,
    pub nmitimen: u8,
    pub rdnmi: u8,
    pub timeup: u8,
    pub hvbjoy: u8,
    pub joy1: u16,
    pub joy2: u16,
    pub wrmpya: u8,
    pub wrmpyb: u8,
    pub wrdiv: u16,
    pub wrdivb: u8,
    pub rddiv: u16,
    pub rdmpy: u16,
    pub wrio: u8,
    pub htime: u16,
    pub vtime: u16,
    pub mdmaen: u8,
    pub hdmaen: u8,
    pub memsel: u8,
    pub apu_out: Seq<u8>,
    pub apu_in: Seq<u8>,
    pub apu_state: u8,
    pub apu_last_counter: u8,
    pub apu_port1_val: u8,
    pub apu_echo_pending: bool,
    pub nmi_fire_count: u64,
    pub wmadd: u32,
    pub active_display_start: u64,
    pub current_cpu_cycles: u64,
    pub in_vblank: bool,
    pub irq_ack: bool,
}

impl View for SnesBus {
    type V = BusView;

    open spec fn view(&self) -> BusView {
        BusView {
            rom: self.rom@,
            wram: self.wram@,
            ppu: self.ppu@,
            dma: self.dma.channels@,
            icd2: self.icd2@,
            nmitimen: self.nmitimen,
            rdnmi: self.rdnmi,
            timeup: self.timeup,
            hvbjoy: self.hvbjoy,
            joy1: self.joy1,
            joy2: self.joy2,
            wrmpya: self.wrmpya,
            wrmpyb: self.wrmpyb,
            wrdiv: self.wrdiv,
            wrdivb: self.wrdivb,
            rddiv: self.rddiv,
            rdmpy: self.rdmpy,
            wrio: self.wrio,
            htime: self.htime,
            vtime: self.vtime,
            mdmaen: self.mdmaen,
            hdmaen: self.hdmaen,
            memsel: self.memsel,
            apu_out: self.apu_out@,
            apu_in: self.apu_in@,
            apu_state: self.apu_state,
            apu_last_counter: self.apu_last_counter,
            apu_port1_val: self.apu_port1_val,
            apu_echo_pending: self.apu_echo_pending,
            nmi_fire_count: self.nmi_fire_count,
            wmadd: self.wmadd,
            active_display_start: self.active_display_start,
            current_cpu_cycles: self.current_cpu_cycles,
            in_vblank: self.in_vblank,
            irq_ack: self.irq_ack,
        }
    }
}

impl BusView {
    pub open spec fn wf(self) -> bool {
        &&& self.wram.len() == WRAM_BYTES
        &&& self.ppu.wf()
        &&& self.dma.len() == 8
        &&& self.icd2.wf()
        &&& self.apu_out.len() == 4
        &&& self.apu_in.len() == 4
        &&& self.wmadd < u32::MAX
    }
}

// ── Address decoding ──

pub open spec fn bank_of(addr: u32) -> int {
    addr as int / 0x1_0000 % 0x100
}

pub open spec fn offset_of(addr: u32) -> u16 {
    (addr % 0x1_0000) as u16
}

/// What an address selects.
pub enum Region {
    Wram(int),
    /// $2140-$2143.
    ApuPort(int),
    /// $2180: the byte of WRAM at the port's address, which then advances.
    WramPort,
    /// $2181-$2183: the bytes of that address, low to high.
    WramAddress(int),
    /// $2100-$21FF.
    Ppu(u16),
    /// $4200-$42FF.
    CpuIo(u16),
    /// $4300-$43FF.
    Dma(u16),
    /// $6000-$7FFF.
    Icd2(u16),
    Rom(int),
    Open,
}

/// WRAM seen through its own banks and through the low 8 KB of the system
/// banks.
pub open spec fn wram_region(addr: u32) -> Option<int> {
    let bank = bank_of(addr) % 0x80;
    let off = offset_of(addr) as int;
    if bank >= 0x7E {
        Some(bank % 2 * 0x1_0000 + off)
    } else if off <= 0x1FFF && bank <= 0x3F {
        Some(off)
    } else {
        None
    }
}

/// The memory map.
pub open spec fn region(addr: u32) -> Region {
    let bank = bank_of(addr) % 0x80;
    let off = offset_of(addr);
    if wram_region(addr) is Some {
        Region::Wram(wram_region(addr)->0)
    } else if bank <= 0x3F && 0x2140 <= off <= 0x2143 {
        Region::ApuPort(off - 0x2140)
    } else if bank <= 0x3F && off == 0x2180 {
        Region::WramPort
    } else if bank <= 0x3F && 0x2181 <= off <= 0x2183 {
        Region::WramAddress(off - 0x2181)
    } else if bank <= 0x3F && 0x2100 <= off <= 0x21FF {
        Region::Ppu(off)
    } else if bank <= 0x3F && 0x4200 <= off <= 0x42FF {
        Region::CpuIo(off)
    } else if bank <= 0x3F && 0x4300 <= off <= 0x43FF {
        Region::Dma((off - 0x4300) as u16)
    } else if bank <= 0x3F && 0x6000 <= off <= 0x7FFF {
        Region::Icd2(off)
    } else if bank <= 0x7D && 0x8000 <= off {
        Region::Rom(bank * 0x8000 + (off - 0x8000))
    } else {
        Region::Open
    }
}

pub open spec fn rom_byte(rom: Seq<u8>, i: int) -> u8 {
    if 0 <= i < rom.len() {
        rom[i]
    } else {
        0
    }
}

// ── Reads ──

/// Scanline at the processor's cycle position: 225-261 in vertical blank,
/// 0-224 in the picture.
pub open spec fn vcount(v: BusView) -> int {
    let now = v.current_cpu_cycles as int;
    let display = v.active_display_start as int;
    if v.in_vblank {
        let start = if display > VBLANK_LINES * CYCLES_PER_SCANLINE {
            display - VBLANK_LINES * CYCLES_PER_SCANLINE
        } else {
            0
        };
        let line = if now > start {
            (now - start) / (CYCLES_PER_SCANLINE as int)
        } else {
            0
        };
        if 225 + line <= 261 {
            225 + line
        } else {
            261
        }
    } else {
        let line = if now > display {
            (now - display) / (CYCLES_PER_SCANLINE as int)
        } else {
            0
        };
        if line <= 224 {
            line
        } else {
            224
        }
    }
}

pub open spec fn word_byte(w: u16, high: bool) -> u8 {
    if high {
        (w / 0x100) as u8
    } else {
        (w % 0x100) as u8
    }
}

/// Byte that a CPU I/O register reads as.
pub open spec fn cpu_io_value(v: BusView, off: u16) -> u8 {
    match off {
        0x4210 => v.rdnmi,
        0x4211 => v.timeup,
        0x4212 => v.hvbjoy,
        0x4214 => word_byte(v.rddiv, false),
        0x4215 => word_byte(v.rddiv, true),
        0x4216 => word_byte(v.rdmpy, false),
        0x4217 => word_byte(v.rdmpy, true),
        0x4218 => word_byte(v.joy1, false),
        0x4219 => word_byte(v.joy1, true),
        0x421A => word_byte(v.joy2, false),
        0x421B => word_byte(v.joy2, true),
        _ => 0,
    }
}

/// Reading the NMI flag clears it; reading the IRQ flag clears and
/// acknowledges it.
pub open spec fn cpu_io_after_read(v: BusView, off: u16) -> BusView {
    match off {
        0x4210 => BusView { rdnmi: (v.rdnmi % 0x80) as u8, ..v },
        0x4211 => BusView { timeup: 0, irq_ack: true, ..v },
        _ => v,
    }
}

/// Byte that a read returns.
pub open spec fn bus_value(v: BusView, addr: u32) -> u8 {
    match region(addr) {
        Region::Wram(i) => v.wram[i],
        Region::ApuPort(p) => v.apu_in[p],
        Region::WramPort => if v.wmadd < v.wram.len() {
            v.wram[v.wmadd as int]
        } else {
            0
        },
        Region::WramAddress(_) => 0,
        Region::Ppu(off) => if off == 0x213D {
            (vcount(v) % 0x100) as u8
        } else {
            ppu_read(v.ppu, off)
        },
        Region::CpuIo(off) => cpu_io_value(v, off),
        Region::Dma(off) => dma_read(v.dma, off),
        Region::Icd2(off) => icd2_read(v.icd2, off),
        Region::Rom(i) => rom_byte(v.rom, i),
        Region::Open => 0,
    }
}

pub open spec fn apu_ready() -> Seq<u8> {
    seq![0xAAu8, 0xBBu8, 0u8, 0u8]
}

/// The bus after a read.
pub open spec fn bus_after_read(v: BusView, addr: u32) -> BusView {
    match region(addr) {
        Region::ApuPort(p) => if p == 0 && v.apu_echo_pending {
            BusView { apu_echo_pending: false, apu_in: apu_ready(), ..v }
        } else {
            v
        },
        Region::WramPort => BusView { wmadd: ((v.wmadd + 1) % 0x2_0000) as u32, ..v },
        Region::CpuIo(off) => cpu_io_after_read(v, off),
        Region::Icd2(off) => BusView { icd2: icd2_after_read(v.icd2, off), ..v },
        _ => v,
    }
}

// ── Writes ──

/// The handshake $CC starts an upload.
pub open spec fn apu_upload_started(v: BusView) -> BusView {
    BusView {
        apu_state: 1,
        apu_in: v.apu_in.update(0, 0xCC),
        apu_last_counter: 0xFF,
        apu_port1_val: 1,
        ..v
    }
}

/// A counter write during an upload. A counter that does not follow the last
/// one ends the block: port 1 then tells a new block from the start of the
/// program.
pub open spec fn apu_counter_written(v: BusView, val: u8) -> BusView {
    let echoed = BusView { apu_in: v.apu_in.update(0, val), ..v };
    if val == (v.apu_last_counter + 1) % 0x100 {
        BusView { apu_last_counter: val, ..echoed }
    } else if v.apu_port1_val == 0 {
        BusView { apu_state: 2, apu_echo_pending: true, ..echoed }
    } else {
        BusView { apu_last_counter: val, apu_port1_val: 1, ..echoed }
    }
}

/// A write to an APU port, as the sound processor's upload program sees it.
pub open spec fn apu_written(v0: BusView, port: int, val: u8) -> BusView {
    let v = BusView { apu_out: v0.apu_out.update(port, val), ..v0 };
    if v.apu_state == 0 || v.apu_state == 2 {
        if port == 0 && val == 0xCC {
            apu_upload_started(v)
        } else {
            v
        }
    } else if v.apu_state == 1 {
        if port == 0 {
            apu_counter_written(v, val)
        } else if port == 1 {
            BusView { apu_port1_val: val, ..v }
        } else {
            v
        }
    } else {
        v
    }
}

/// A DMA run as a change of the bus.
pub open spec fn dma_executed(v: BusView, enable: u8) -> BusView {
    let r = channels_run::<SnesBus>(DmaRun { ports: v, channels: v.dma, cycles: 0 }, enable, 8);
    BusView { dma: r.channels, ..r.ports }
}

/// A write to a CPU I/O register.
pub open spec fn cpu_io_written(v: BusView, off: u16, val: u8) -> BusView {
    match off {
        0x4200 => BusView { nmitimen: val, ..v },
        0x4201 => BusView { wrio: val, ..v },
        0x4202 => BusView { wrmpya: val, ..v },
        0x4203 => {
            let product = (v.wrmpya * val) as u16;
            BusView { wrmpyb: val, rdmpy: product, rddiv: product, ..v }
        },
        0x4204 => BusView { wrdiv: (v.wrdiv / 0x100 * 0x100 + val) as u16, ..v },
        0x4205 => BusView { wrdiv: (val * 0x100 + v.wrdiv % 0x100) as u16, ..v },
        0x4206 => if val == 0 {
            BusView { wrdivb: val, rddiv: 0xFFFF, rdmpy: v.wrdiv, ..v }
        } else {
            BusView {
                wrdivb: val,
                rddiv: (v.wrdiv as int / val as int) as u16,
                rdmpy: (v.wrdiv as int % val as int) as u16,
                ..v
            }
        },
        0x4207 => BusView { htime: (v.htime / 0x100 % 2 * 0x100 + val) as u16, ..v },
        0x4208 => BusView { htime: (val % 2 * 0x100 + v.htime % 0x100) as u16, ..v },
        0x4209 => BusView { vtime: (v.vtime / 0x100 % 2 * 0x100 + val) as u16, ..v },
        0x420A => BusView { vtime: (val % 2 * 0x100 + v.vtime % 0x100) as u16, ..v },
        0x420B => {
            let v1 = BusView { mdmaen: val, ..v };
            if val != 0 {
                dma_executed(v1, val)
            } else {
                v1
            }
        },
        0x420C => BusView { hdmaen: val, ..v },
        0x420D => BusView { memsel: val, ..v },
        _ => v,
    }
}

/// The 17-bit address of the WRAM port with byte `k` replaced.
pub open spec fn port_address(addr: u32, k: int, val: u8) -> u32 {
    if k == 0 {
        (addr / 0x100 % 0x200 * 0x100 + val) as u32
    } else if k == 1 {
        (addr / 0x1_0000 % 2 * 0x1_0000 + 0x100 * val + addr % 0x100) as u32
    } else {
        (val % 2 * 0x1_0000 + addr % 0x1_0000) as u32
    }
}

/// The bus after a write.
pub open spec fn bus_written(v: BusView, addr: u32, val: u8) -> BusView {
    match region(addr) {
        Region::Wram(i) => BusView { wram: v.wram.update(i, val), ..v },
        Region::ApuPort(p) => apu_written(v, p, val),
        Region::WramPort => BusView {
            wram: if v.wmadd < v.wram.len() {
                v.wram.update(v.wmadd as int, val)
            } else {
                v.wram
            },
            wmadd: ((v.wmadd + 1) % 0x2_0000) as u32,
            ..v
        },
        Region::WramAddress(k) => BusView { wmadd: port_address(v.wmadd, k, val), ..v },
        Region::Ppu(off) => BusView { ppu: ppu_write(v.ppu, off, val), ..v },
        Region::CpuIo(off) => cpu_io_written(v, off, val),
        Region::Dma(off) => BusView { dma: dma_write(v.dma, off, val), ..v },
        Region::Icd2(off) => BusView { icd2: icd2_write(v.icd2, off, val), ..v },
        _ => v,
    }
}

// ── DMA access ──

/// What the A-bus of a DMA transfer reads: WRAM, the ICD2 and ROM.
pub open spec fn dma_a_value(v: BusView, addr: u32) -> u8 {
    match region(addr) {
        Region::Wram(i) => v.wram[i],
        Region::Icd2(off) => icd2_read(v.icd2, off),
        Region::Rom(i) => rom_byte(v.rom, i),
        _ => 0,
    }
}

pub open spec fn dma_after_a_read(v: BusView, addr: u32) -> BusView {
    match region(addr) {
        Region::Icd2(off) => BusView { icd2: icd2_after_read(v.icd2, off), ..v },
        _ => v,
    }
}

/// What the A-bus of a DMA transfer writes: WRAM alone.
pub open spec fn dma_after_a_write(v: BusView, addr: u32, val: u8) -> BusView {
    match region(addr) {
        Region::Wram(i) => BusView { wram: v.wram.update(i, val), ..v },
        _ => v,
    }
}

impl DmaPorts for SnesBus {
    type State = BusView;

    open spec fn ports(&self) -> BusView {
        self@
    }

    open spec fn ports_valid(s: BusView) -> bool {
        s.wf()
    }

    open spec fn a_value(s: BusView, addr: u32) -> u8 {
        dma_a_value(s, addr)
    }

    open spec fn after_a_read(s: BusView, addr: u32) -> BusView {
        dma_after_a_read(s, addr)
    }

    open spec fn after_a_write(s: BusView, addr: u32, val: u8) -> BusView {
        dma_after_a_write(s, addr, val)
    }

    open spec fn b_value(s: BusView, addr: u16) -> u8 {
        ppu_read(s.ppu, addr)
    }

    open spec fn after_b_write(s: BusView, addr: u16, val: u8) -> BusView {
        BusView { ppu: ppu_write(s.ppu, addr, val), ..s }
    }

    fn a_read(&mut self, addr: u32) -> (v: u8) {
        match decode(addr) {
            Target::Wram(i) => self.wram[i],
            Target::Icd2(off) => self.icd2.read(off),
            Target::Rom(i) => self.read_rom(i),
            _ => 0,
        }
    }

    fn a_write(&mut self, addr: u32, val: u8) {
        match decode(addr) {
            Target::Wram(i) => {
                self.wram[i] = val;
            },
            _ => {},
        }
    }

    fn b_read(&self, addr: u16) -> (v: u8) {
        self.ppu.read(addr)
    }

    fn b_write(&mut self, addr: u16, val: u8) {
        self.ppu.write(addr, val);
    }
}

/// Executable counterpart of [`Region`].
#[derive(Clone, Copy)]
pub enum Target {
    Wram(usize),
    ApuPort(usize),
    WramPort,
    WramAddress(usize),
    Ppu(u16),
    CpuIo(u16),
    Dma(u16),
    Icd2(u16),
    Rom(usize),
    Open,
}

pub open spec fn target_region(t: Target) -> Region {
    match t {
        Target::Wram(i) => Region::Wram(i as int),
        Target::ApuPort(p) => Region::ApuPort(p as int),
        Target::WramPort => Region::WramPort,
        Target::WramAddress(k) => Region::WramAddress(k as int),
        Target::Ppu(off) => Region::Ppu(off),
        Target::CpuIo(off) => Region::CpuIo(off),
        Target::Dma(off) => Region::Dma(off),
        Target::Icd2(off) => Region::Icd2(off),
        Target::Rom(i) => Region::Rom(i as int),
        Target::Open => Region::Open,
    }
}

/// Decode an address.
fn decode(addr: u32) -> (t: Target)
    ensures
        target_region(t) == region(addr),
        t is Wram ==> t->Wram_0 < WRAM_BYTES,
        t is ApuPort ==> t->ApuPort_0 < 4,
{
    let bank: usize = (addr / 0x1_0000 % 0x80) as usize;
    let off: u16 = (addr % 0x1_0000) as u16;
    if bank >= 0x7E {
        Target::Wram(bank % 2 * 0x1_0000 + off as usize)
    } else if bank <= 0x3F {
        match off {
            0x0000..=0x1FFF => Target::Wram(off as usize),
            0x2140..=0x2143 => Target::ApuPort((off - 0x2140) as usize),
            0x2180 => Target::WramPort,
            0x2181..=0x2183 => Target::WramAddress((off - 0x2181) as usize),
            0x2100..=0x21FF => Target::Ppu(off),
            0x4200..=0x42FF => Target::CpuIo(off),
            0x4300..=0x43FF => Target::Dma(off - 0x4300),
            0x6000..=0x7FFF => Target::Icd2(off),
            0x8000..=0xFFFF => Target::Rom(bank * 0x8000 + (off as usize - 0x8000)),
            _ => Target::Open,
        }
    } else if off >= 0x8000 {
        Target::Rom(bank * 0x8000 + (off as usize - 0x8000))
    } else {
        Target::Open
    }
}

impl AddressSpace for SnesBus {
    type State = BusView;

    open spec fn state(&self) -> BusView {
        self@
    }

    open spec fn valid(s: BusView) -> bool {
        s.wf()
    }

    open spec fn peek(s: BusView, addr: u32) -> u8 {
        bus_value(s, addr)
    }

    open spec fn after_read(s: BusView, addr: u32) -> BusView {
        bus_after_read(s, addr)
    }

    open spec fn after_write(s: BusView, addr: u32, val: u8) -> BusView {
        bus_written(s, addr, val)
    }

    fn read(&mut self, addr: u32) -> (v: u8) {
        SnesBus::read(self, addr)
    }

    fn write(&mut self, addr: u32, val: u8) {
        SnesBus::write(self, addr, val)
    }
}

/// The bus after power-on.
pub open spec fn bus_initial(rom: Seq<u8>) -> BusView {
    BusView {
        rom,
        wram: Seq::new(WRAM_BYTES as nat, |i: int| 0u8),
        ppu: ppu_initial(),
        dma: Seq::new(
            8,
            |i: int|
                DmaChannel {
                    dmap: 0xFF,
                    bbad: 0xFF,
                    a1t: 0xFF_FFFF,
                    das: 0xFFFF,
                    dasb: 0xFF,
                    a2a: 0xFFFF,
                    ntrl: 0xFF,
                    unused: 0xFF,
                },
        ),
        icd2: icd2_initial(),
        nmitimen: 0,
        rdnmi: 0x02,
        timeup: 0,
        hvbjoy: 0,
        joy1: 0,
        joy2: 0,
        wrmpya: 0xFF,
        wrmpyb: 0,
        wrdiv: 0xFFFF,
        wrdivb: 0,
        rddiv: 0,
        rdmpy: 0,
        wrio: 0xFF,
        htime: 0x1FF,
        vtime: 0x1FF,
        mdmaen: 0,
        hdmaen: 0,
        memsel: 0,
        apu_out: Seq::new(4, |i: int| 0u8),
        apu_in: apu_ready(),
        apu_state: 0,
        apu_last_counter: 0,
        apu_port1_val: 0,
        apu_echo_pending: false,
        nmi_fire_count: 0,
        wmadd: 0,
        active_display_start: 0,
        current_cpu_cycles: 0,
        in_vblank: true,
        irq_ack: false,
    }
}

impl SnesBus {
    /// The bus after power-on with the given program ROM.
    pub fn new(rom: Vec<u8>) -> (b: Self)
        ensures
            b@ == bus_initial(rom@),
            b@.wf(),
    {
        let b = SnesBus {
            rom,
            wram: zeroed(WRAM_BYTES),
            ppu: SnesPpuRegs::new(),
            dma: DmaController::new(),
            icd2: Icd2::new(),
            nmitimen: 0,
            rdnmi: 0x02,
            timeup: 0,
            hvbjoy: 0,
            joy1: 0,
            joy2: 0,
            wrmpya: 0xFF,
            wrmpyb: 0,
            wrdiv: 0xFFFF,
            wrdivb: 0,
            rddiv: 0,
            rdmpy: 0,
            wrio: 0xFF,
            htime: 0x1FF,
            vtime: 0x1FF,
            mdmaen: 0,
            hdmaen: 0,
            memsel: 0,
            apu_out: [0u8;4],
            apu_in: [0xAA, 0xBB, 0x00, 0x00],
            apu_state: 0,
            apu_last_counter: 0,
            apu_port1_val: 0,
            apu_echo_pending: false,
            nmi_fire_count: 0,
            wmadd: 0,
            active_display_start: 0,
            current_cpu_cycles: 0,
            in_vblank: true,
            irq_ack: false,
        };
        assert(b@ =~= bus_initial(rom@));
        b
    }

    /// Scanline at the processor's cycle position.
    fn current_vcount(&self) -> (r: u16)
        ensures
            r == vcount(self@),
    {
        if self.in_vblank {
            let start: u64 = self.active_display_start.saturating_sub(
                VBLANK_LINES * CYCLES_PER_SCANLINE,
            );
            let line: u64 = self.current_cpu_cycles.saturating_sub(start) / CYCLES_PER_SCANLINE;
            if line <= 36 {
                225 + line as u16
            } else {
                261
            }
        } else {
            let line: u64 = self.current_cpu_cycles.saturating_sub(self.active_display_start)
                / CYCLES_PER_SCANLINE;
            if line <= 224 {
                line as u16
            } else {
                224
            }
        }
    }

    /// Read a byte from the 24-bit address space.
    pub fn read(&mut self, addr: u32) -> (v: u8)
        requires
            old(self)@.wf(),
        ensures
            v == bus_value(old(self)@, addr),
            final(self)@ == bus_after_read(old(self)@, addr),
            final(self)@.wf(),
    {
        match decode(addr) {
            Target::Wram(i) => self.wram[i],
            Target::ApuPort(p) => {
                let v: u8 = self.apu_in[p];
                if p == 0 && self.apu_echo_pending {
                    self.apu_echo_pending = false;
                    self.apu_in = [0xAA, 0xBB, 0x00, 0x00];
                    assert(self.apu_in@ =~= apu_ready());
                }
                v
            },
            Target::WramPort => {
                let v: u8 = if (self.wmadd as usize) < WRAM_BYTES {
                    self.wram[self.wmadd as usize]
                } else {
                    0
                };
                self.wmadd = (self.wmadd + 1) % 0x2_0000;
                v
            },
            Target::WramAddress(_) => 0,
            Target::Ppu(off) => {
                if off == 0x213D {
                    (self.current_vcount() % 0x100) as u8
                } else {
                    self.ppu.read(off)
                }
            },
            Target::CpuIo(off) => self.read_cpu_io(off),
            Target::Dma(off) => self.dma.read(off),
            Target::Icd2(off) => self.icd2.read(off),
            Target::Rom(i) => self.read_rom(i),
            Target::Open => 0,
        }
    }

    /// Write a byte to the 24-bit address space.
    pub fn write(&mut self, addr: u32, val: u8)
        requires
            old(self)@.wf(),
        ensures
            final(self)@ == bus_written(old(self)@, addr, val),
            final(self)@.wf(),
    {
        match decode(addr) {
            Target::Wram(i) => {
                self.wram[i] = val;
            },
            Target::ApuPort(p) => self.write_apu(p, val),
            Target::WramPort => {
                if (self.wmadd as usize) < WRAM_BYTES {
                    self.wram[self.wmadd as usize] = val;
                }
                self.wmadd = (self.wmadd + 1) % 0x2_0000;
            },
            Target::WramAddress(k) => self.write_port_address(k, val),
            Target::Ppu(off) => self.ppu.write(off, val),
            Target::CpuIo(off) => self.write_cpu_io(off, val),
            Target::Dma(off) => self.dma.write(off, val),
            Target::Icd2(off) => self.icd2.write(off, val),
            _ => {},
        }
    }

    fn write_port_address(&mut self, k: usize, val: u8)
        requires
            old(self)@.wf(),
        ensures
            final(self)@ == (BusView {
                wmadd: port_address(old(self)@.wmadd, k as int, val),
                ..old(self)@
            }),
            final(self)@.wf(),
    {
        let a: u32 = self.wmadd;
        self.wmadd = match k {
            0 => a / 0x100 % 0x200 * 0x100 + val as u32,
            1 => a / 0x1_0000 % 2 * 0x1_0000 + 0x100 * (val as u32) + a % 0x100,
            _ => val as u32 % 2 * 0x1_0000 + a % 0x1_0000,
        };
    }

    fn write_apu(&mut self, port: usize, val: u8)
        requires
            old(self)@.wf(),
            port < 4,
        ensures
            final(self)@ == apu_written(old(self)@, port as int, val),
            final(self)@.wf(),
    {
        self.apu_out[port] = val;
        match self.apu_state {
            0 | 2 => {
                if port == 0 && val == 0xCC {
                    self.apu_state = 1;
                    self.apu_in[0] = 0xCC;
                    self.apu_last_counter = 0xFF;
                    self.apu_port1_val = 1;
                }
            },
            1 => {
                if port == 1 {
                    self.apu_port1_val = val;
                }
                if port == 0 {
                    let follows: bool = val == self.apu_last_counter.wrapping_add(1);
                    self.apu_in[0] = val;
                    if follows {
                        self.apu_last_counter = val;
                    } else if self.apu_port1_val == 0 {
                        self.apu_state = 2;
                        self.apu_echo_pending = true;
                    } else {
                        self.apu_last_counter = val;
                        self.apu_port1_val = 1;
                    }
                }
            },
            _ => {},
        }
    }

    fn read_rom(&self, i: usize) -> (v: u8)
        ensures
            v == rom_byte(self@.rom, i as int),
    {
        if i < self.rom.len() {
            self.rom[i]
        } else {
            0
        }
    }

    fn read_cpu_io(&mut self, off: u16) -> (v: u8)
        requires
            old(self)@.wf(),
        ensures
            v == cpu_io_value(old(self)@, off),
            final(self)@ == cpu_io_after_read(old(self)@, off),
            final(self)@.wf(),
    {
        match off {
            0x4210 => {
                let v: u8 = self.rdnmi;
                self.rdnmi = self.rdnmi % 0x80;
                v
            },
            0x4211 => {
                let v: u8 = self.timeup;
                self.timeup = 0;
                self.irq_ack = true;
                v
            },
            0x4212 => self.hvbjoy,
            0x4214 => (self.rddiv % 0x100) as u8,
            0x4215 => (self.rddiv / 0x100) as u8,
            0x4216 => (self.rdmpy % 0x100) as u8,
            0x4217 => (self.rdmpy / 0x100) as u8,
            0x4218 => (self.joy1 % 0x100) as u8,
            0x4219 => (self.joy1 / 0x100) as u8,
            0x421A => (self.joy2 % 0x100) as u8,
            0x421B => (self.joy2 / 0x100) as u8,
            _ => 0,
        }
    }

    fn write_cpu_io(&mut self, off: u16, val: u8)
        requires
            old(self)@.wf(),
        ensures
            final(self)@ == cpu_io_written(old(self)@, off, val),
            final(self)@.wf(),
    {
        match off {
            0x4200 => {
                self.nmitimen = val;
            },
            0x4201 => {
                self.wrio = val;
            },
            0x4202 => {
                self.wrmpya = val;
            },
            0x4203 => {
                self.wrmpyb = val;
                assert(self.wrmpya * val <= 0xFF * 0xFF) by (nonlinear_arith)
                    requires
                        self.wrmpya <= 0xFF,
                        val <= 0xFF,
                ;
                self.rdmpy = self.wrmpya as u16 * val as u16;
                self.rddiv = self.rdmpy;
            },
            0x4204 => {
                self.wrdiv = self.wrdiv / 0x100 * 0x100 + val as u16;
            },
            0x4205 => {
                self.wrdiv = val as u16 * 0x100 + self.wrdiv % 0x100;
            },
            0x4206 => {
                self.wrdivb = val;
                if val == 0 {
                    self.rddiv = 0xFFFF;
                    self.rdmpy = self.wrdiv;
                } else {
                    self.rddiv = self.wrdiv / val as u16;
                    self.rdmpy = self.wrdiv % val as u16;
                }
            },
            0x4207 => {
                self.htime = self.htime / 0x100 % 2 * 0x100 + val as u16;
            },
            0x4208 => {
                self.htime = (val % 2) as u16 * 0x100 + self.htime % 0x100;
            },
            0x4209 => {
                self.vtime = self.vtime / 0x100 % 2 * 0x100 + val as u16;
            },
            0x420A => {
                self.vtime = (val % 2) as u16 * 0x100 + self.vtime % 0x100;
            },
            0x420B => {
                self.mdmaen = val;
                if val != 0 {
                    self.execute_dma(val);
                }
            },
            0x420C => {
                self.hdmaen = val;
            },
            0x420D => {
                self.memsel = val;
            },
            _ => {},
        }
    }

    /// Run the enabled DMA channels at once. The transfers never reach the
    /// channel registers themselves.
    fn execute_dma(&mut self, enable: u8)
        requires
            old(self)@.wf(),
        ensures
            final(self)@ == dma_executed(old(self)@, enable),
            final(self)@.wf(),
    {
        let mut dma = DmaController { channels: self.dma.channels };
        let _cycles: u64 = dma.run_dma(enable, self);
        self.dma = dma;
    }

    /// Raise the NMI flag (called at the start of vertical blank).
    pub fn set_nmi_flag(&mut self)
        ensures
            final(self)@ == (BusView { rdnmi: 0x82, ..old(self)@ }),
    {
        self.rdnmi = 0x82;
    }

    /// True when NMIs are enabled and the NMI flag is raised.
    pub fn nmi_enabled(&self) -> (r: bool)
        ensures
            r == (self@.nmitimen >= 0x80 && self@.rdnmi >= 0x80),
    {
        self.nmitimen >= 0x80 && self.rdnmi >= 0x80
    }
}

} // verus!
