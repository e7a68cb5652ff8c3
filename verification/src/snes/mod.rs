//! SNES subsystem for low-level Super Game Boy emulation.
//!
//! Runs the Super Game Boy BIOS on a 65C816 to process the Game Boy's command
//! packets, so that games which patch the BIOS get their palettes.

pub mod address_space;
pub mod bus;
pub mod bus_laws;
pub mod cpu;
pub mod cpu_laws;
pub mod cpu_model;
pub mod cpu_width_laws;
pub mod dma;
pub mod dma_laws;
pub mod icd2;
pub mod icd2_laws;
pub mod isa;
pub mod isa_flow_laws;
pub mod isa_jump_laws;
pub mod isa_laws;
pub mod ppu_laws;
pub mod ppu_regs;
pub mod system_laws;

use vstd::prelude::*;

use crate::bytes::copied;
use crate::snapshot::SnesSnapshot;
use bus::{
    bus_initial, rom_byte, BusView, SnesBus, CYCLES_PER_SCANLINE, VBLANK_LINES, WRAM_BYTES,
};
use cpu::{machine, Cpu65816};
use cpu_laws::law_step_cycles;
use cpu_model::{stepped, with_flag, word, FLAG_I, FLAG_M, FLAG_X, MAX_STEP_CYCLES};
use icd2::{packet_fed, scanlines_fed, tile_row_set, TILE_ROWS, VBLANK_ROW};

verus! {

/// Master cycles per frame (about 21.477 MHz at 60 frames per second).
pub const SNES_CYCLES_PER_FRAME: u64 = 357_366;
/// Master cycles in which the Game Boy draws one tile row.
pub const CYCLES_PER_TILE_ROW: u64 = 10_912;
/// Room that the cycle counter must have left before a frame.
pub const FRAME_HEADROOM: u64 = 0x1000_0000;

/// The SNES system.
pub struct SnesSys {
    pub cpu: Cpu65816,
    pub bus: SnesBus,
    pub frame_count: u64,
}

/// Mathematical state of the system.
#[verifier::ext_equal]
pub struct SysView {
    pub cpu: Cpu65816,
    pub bus: BusView,
    pub frame_count: u64,
}

impl View for SnesSys {
    type V = SysView;

    open spec fn view(&self) -> SysView {
        SysView { cpu: self.cpu, bus: self.bus@, frame_count: self.frame_count }
    }
}

impl SysView {
    pub open spec fn wf(self) -> bool {
        self.bus.wf()
    }
}

// ── Running ──

/// One processor step. The bus learns the cycle position first, and an
/// acknowledged IRQ releases the line afterwards.
pub open spec fn cpu_stepped(s: SysView) -> SysView {
    let m = stepped(
        machine::<SnesBus>(s.cpu, BusView { current_cpu_cycles: s.cpu.cycles, ..s.bus }),
    );
    if m.mem.irq_ack {
        SysView {
            cpu: Cpu65816 { irq_line: false, ..m.cpu },
            bus: BusView { irq_ack: false, ..m.mem },
            ..s
        }
    } else {
        SysView { cpu: m.cpu, bus: m.mem, ..s }
    }
}

pub open spec fn at_cycle(s: SysView, target: u64) -> SysView {
    SysView { cpu: Cpu65816 { cycles: target, ..s.cpu }, ..s }
}

pub open spec fn cycles_left(s: SysView, target: u64) -> int {
    if s.cpu.cycles < target {
        target - s.cpu.cycles
    } else {
        0
    }
}

/// Run to a cycle position. A processor that is stopped, or waiting with no
/// interrupt in sight, skips ahead.
pub open spec fn ran_until(s: SysView, target: u64) -> SysView
    decreases cycles_left(s, target) when target + MAX_STEP_CYCLES <= u64::MAX via
    ran_until_decreases
{
    if s.cpu.cycles >= target {
        s
    } else if s.cpu.stopped {
        at_cycle(s, target)
    } else {
        let s1 = cpu_stepped(s);
        if s.cpu.waiting && s1.cpu.waiting {
            at_cycle(s1, target)
        } else {
            ran_until(s1, target)
        }
    }
}

#[via_fn]
proof fn ran_until_decreases(s: SysView, target: u64) {
    if s.cpu.cycles < target {
        law_step_cycles(
            machine::<SnesBus>(s.cpu, BusView { current_cpu_cycles: s.cpu.cycles, ..s.bus }),
        );
    }
}

// ── Frames ──

/// A frame in progress: the system, and whether the frame's IRQ has fired.
pub struct FrameRun {
    pub sys: SysView,
    pub irq_fired: bool,
}

/// The system as the frame enters vertical blank: the NMI flag rises, and the
/// NMI line with it when enabled.
pub open spec fn vblank_begun(s: SysView, vblank_end: u64) -> SysView {
    let fires = s.bus.nmitimen >= 0x80;
    SysView {
        cpu: if fires {
            Cpu65816 { nmi_line: true, ..s.cpu }
        } else {
            s.cpu
        },
        bus: BusView {
            rdnmi: 0x82,
            hvbjoy: 0x80,
            in_vblank: true,
            active_display_start: vblank_end,
            icd2: tile_row_set(s.bus.icd2, VBLANK_ROW),
            nmi_fire_count: (s.bus.nmi_fire_count + if fires {
                1int
            } else {
                0int
            }) as u64,
            ..s.bus
        },
        ..s
    }
}

/// The system as the picture begins.
pub open spec fn display_begun(s: SysView, vblank_end: u64) -> SysView {
    SysView {
        cpu: Cpu65816 { nmi_line: false, ..s.cpu },
        bus: BusView {
            hvbjoy: 0,
            in_vblank: false,
            active_display_start: vblank_end,
            ..s.bus
        },
        ..s
    }
}

/// Cycle position of the frame's IRQ, when one is enabled.
pub open spec fn irq_position(b: BusView, vblank_end: u64) -> Option<u64> {
    if b.nmitimen & 0x30 != 0 {
        Some((vblank_end + b.vtime * CYCLES_PER_SCANLINE) as u64)
    } else {
        None
    }
}

/// Fire the frame's IRQ if its position lies ahead but not beyond `limit`.
pub open spec fn irq_checked(r: FrameRun, irq_at: Option<u64>, limit: u64) -> FrameRun {
    if !r.irq_fired && irq_at is Some && irq_at->0 <= limit && irq_at->0 > r.sys.cpu.cycles {
        let s = ran_until(r.sys, irq_at->0);
        FrameRun {
            sys: SysView {
                cpu: Cpu65816 { irq_line: true, ..s.cpu },
                bus: BusView { timeup: 0x80, ..s.bus },
                ..s
            },
            irq_fired: true,
        }
    } else {
        r
    }
}

pub open spec fn tile_row_shown(s: SysView, row: u8) -> SysView {
    SysView { bus: BusView { icd2: tile_row_set(s.bus.icd2, row), ..s.bus }, ..s }
}

/// End of a tile row's time slice, within the frame.
pub open spec fn row_limit(vblank_end: u64, target: u64, row: int) -> u64 {
    let end = vblank_end + (row + 1) * CYCLES_PER_TILE_ROW;
    if end < target {
        end as u64
    } else {
        target
    }
}

/// Run the slice of one tile row.
pub open spec fn row_run(
    r: FrameRun,
    irq_at: Option<u64>,
    vblank_end: u64,
    target: u64,
    row: int,
) -> FrameRun {
    let limit = row_limit(vblank_end, target, row);
    let r1 = irq_checked(
        FrameRun { sys: tile_row_shown(r.sys, row as u8), ..r },
        irq_at,
        limit,
    );
    FrameRun { sys: ran_until(r1.sys, limit), ..r1 }
}

/// Run the slices of the first `n` tile rows.
pub open spec fn rows_run(
    r: FrameRun,
    irq_at: Option<u64>,
    vblank_end: u64,
    target: u64,
    n: nat,
) -> FrameRun
    decreases n,
{
    if n == 0 {
        r
    } else {
        row_run(
            rows_run(r, irq_at, vblank_end, target, (n - 1) as nat),
            irq_at,
            vblank_end,
            target,
            n - 1,
        )
    }
}

/// Flags of the BIOS that gate packet and display processing, and the values
/// that open them.
pub open spec fn gate_value(addr: int) -> Option<u8> {
    if addr == 0x02F6 || addr == 0x02F8 || addr == 0x02CA || addr == 0x0C48 {
        Some(1)
    } else if addr == 0x0C4F {
        Some(0xFF)
    } else {
        None
    }
}

/// Working memory with every closed gate opened.
pub open spec fn gates_opened(wram: Seq<u8>) -> Seq<u8> {
    Seq::new(
        wram.len(),
        |i: int|
            if wram[i] == 0 && gate_value(i) is Some {
                gate_value(i)->0
            } else {
                wram[i]
            },
    )
}

/// End of a frame: the IRQ line is released, and once the sound upload is
/// over (after 30 frames) the gates are opened and IRQs unmasked.
pub open spec fn frame_ended(r: FrameRun) -> SysView {
    let s = r.sys;
    let c = if r.irq_fired {
        Cpu65816 { irq_line: false, ..s.cpu }
    } else {
        s.cpu
    };
    if s.frame_count > 30 {
        SysView {
            cpu: Cpu65816 { p: with_flag(c.p, FLAG_I, false), ..c },
            bus: BusView { wram: gates_opened(s.bus.wram), ..s.bus },
            frame_count: (s.frame_count + 1) as u64,
        }
    } else {
        SysView { cpu: c, frame_count: (s.frame_count + 1) as u64, ..s }
    }
}

/// One whole frame, from vertical blank to vertical blank.
pub open spec fn frame_run(s: SysView) -> SysView {
    let vblank_end = (s.cpu.cycles + VBLANK_LINES * CYCLES_PER_SCANLINE) as u64;
    let target = (s.cpu.cycles + SNES_CYCLES_PER_FRAME) as u64;
    let s1 = display_begun(ran_until(vblank_begun(s, vblank_end), vblank_end), vblank_end);
    let irq_at = irq_position(s1.bus, vblank_end);
    let r1 = rows_run(
        FrameRun { sys: s1, irq_fired: false },
        irq_at,
        vblank_end,
        target,
        TILE_ROWS as nat,
    );
    let r2 = irq_checked(
        FrameRun { sys: tile_row_shown(r1.sys, VBLANK_ROW), ..r1 },
        irq_at,
        target,
    );
    frame_ended(FrameRun { sys: ran_until(r2.sys, target), ..r2 })
}

impl SnesSys {
    fn step_cpu(&mut self)
        requires
            old(self)@.wf(),
            old(self).cpu.cycles + MAX_STEP_CYCLES <= u64::MAX,
        ensures
            final(self)@ == cpu_stepped(old(self)@),
            final(self)@.wf(),
            old(self).cpu.cycles + 6 <= final(self).cpu.cycles <= old(self).cpu.cycles
                + MAX_STEP_CYCLES,
            final(self).frame_count == old(self).frame_count,
    {
        self.bus.current_cpu_cycles = self.cpu.cycles;
        let _spent: u32 = self.cpu.step(&mut self.bus);
        if self.bus.irq_ack {
            self.cpu.irq_line = false;
            self.bus.irq_ack = false;
        }
    }

    /// Run the processor to the given cycle position.
    fn run_until(&mut self, target: u64)
        requires
            old(self)@.wf(),
            target + MAX_STEP_CYCLES <= u64::MAX,
        ensures
            final(self)@ == ran_until(old(self)@, target),
            final(self)@.wf(),
            old(self).cpu.cycles >= target ==> final(self).cpu.cycles == old(self).cpu.cycles,
            old(self).cpu.cycles < target ==> target <= final(self).cpu.cycles <= target
                + MAX_STEP_CYCLES,
            final(self).frame_count == old(self).frame_count,
    {
        let ghost s0 = self@;
        while self.cpu.cycles < target
            invariant_except_break
                ran_until(s0, target) == ran_until(self@, target),
            invariant
                self@.wf(),
                target + MAX_STEP_CYCLES <= u64::MAX,
                s0.cpu.cycles >= target ==> self.cpu.cycles == s0.cpu.cycles,
                s0.cpu.cycles < target ==> self.cpu.cycles <= target + MAX_STEP_CYCLES,
                self.frame_count == s0.frame_count,
            ensures
                self.cpu.cycles >= target,
                ran_until(s0, target) == self@,
            decreases cycles_left(self@, target),
        {
            if self.cpu.stopped {
                self.cpu.cycles = target;
                break;
            }
            let was_waiting: bool = self.cpu.waiting;
            self.step_cpu();
            if was_waiting && self.cpu.waiting {
                self.cpu.cycles = target;
                break;
            }
        }
    }

    /// Fire the frame's IRQ if it is due before `limit`.
    fn check_irq(&mut self, irq_at: Option<u64>, limit: u64, fired: bool) -> (now_fired: bool)
        requires
            old(self)@.wf(),
            limit + MAX_STEP_CYCLES <= u64::MAX,
            old(self).cpu.cycles <= limit + MAX_STEP_CYCLES,
        ensures
            final(self)@.wf(),
            (FrameRun { sys: final(self)@, irq_fired: now_fired }) == irq_checked(
                FrameRun { sys: old(self)@, irq_fired: fired },
                irq_at,
                limit,
            ),
            final(self).cpu.cycles <= limit + MAX_STEP_CYCLES,
            final(self).frame_count == old(self).frame_count,
    {
        if !fired {
            if let Some(at) = irq_at {
                if at <= limit && at > self.cpu.cycles {
                    self.run_until(at);
                    self.bus.timeup = 0x80;
                    self.cpu.irq_line = true;
                    return true;
                }
            }
        }
        fired
    }

    /// Open one gate of the BIOS if it is closed.
    fn open_gate(&mut self, addr: usize, val: u8)
        requires
            old(self)@.wf(),
            addr < WRAM_BYTES,
        ensures
            final(self)@ == (SysView {
                bus: BusView {
                    wram: old(self)@.bus.wram.update(
                        addr as int,
                        if old(self)@.bus.wram[addr as int] == 0 {
                            val
                        } else {
                            old(self)@.bus.wram[addr as int]
                        },
                    ),
                    ..old(self)@.bus
                },
                ..old(self)@
            }),
            final(self)@.wf(),
    {
        if self.bus.wram[addr] == 0 {
            self.bus.wram[addr] = val;
        }
        assert(self.bus.wram@ =~= old(self)@.bus.wram.update(
            addr as int,
            self.bus.wram@[addr as int],
        ));
    }

    /// Enter vertical blank.
    fn begin_vblank(&mut self, vblank_end: u64)
        requires
            old(self)@.wf(),
            old(self).bus.nmi_fire_count < u64::MAX,
        ensures
            final(self)@ == vblank_begun(old(self)@, vblank_end),
            final(self)@.wf(),
            final(self).cpu.cycles == old(self).cpu.cycles,
            final(self).frame_count == old(self).frame_count,
    {
        let ghost s = self@;
        self.bus.set_nmi_flag();
        self.bus.hvbjoy = 0x80;
        self.bus.in_vblank = true;
        self.bus.active_display_start = vblank_end;
        self.bus.icd2.set_tile_row(VBLANK_ROW);
        assert(self@.bus == (BusView {
            nmi_fire_count: s.bus.nmi_fire_count,
            ..vblank_begun(s, vblank_end).bus
        }));
        if self.bus.nmi_enabled() {
            self.cpu.set_nmi(true);
            self.bus.nmi_fire_count = self.bus.nmi_fire_count + 1;
        }
    }

    /// Begin the picture.
    fn begin_display(&mut self, vblank_end: u64)
        requires
            old(self)@.wf(),
        ensures
            final(self)@ == display_begun(old(self)@, vblank_end),
            final(self)@.wf(),
            final(self).cpu.cycles == old(self).cpu.cycles,
            final(self).frame_count == old(self).frame_count,
    {
        self.cpu.set_nmi(false);
        self.bus.hvbjoy = 0x00;
        self.bus.in_vblank = false;
        self.bus.active_display_start = vblank_end;
    }

    /// Run the slice of one tile row.
    fn run_row(
        &mut self,
        irq_at: Option<u64>,
        vblank_end: u64,
        target: u64,
        row: u8,
        fired: bool,
    ) -> (now_fired: bool)
        requires
            old(self)@.wf(),
            row < 18,
            target + MAX_STEP_CYCLES <= u64::MAX,
            vblank_end + 0x100_0000 <= u64::MAX,
            row_start_bound(vblank_end, target, row as int, old(self).cpu.cycles),
        ensures
            final(self)@.wf(),
            (FrameRun { sys: final(self)@, irq_fired: now_fired }) == row_run(
                FrameRun { sys: old(self)@, irq_fired: fired },
                irq_at,
                vblank_end,
                target,
                row as int,
            ),
            row_start_bound(vblank_end, target, row + 1, final(self).cpu.cycles),
            final(self).frame_count == old(self).frame_count,
    {
        self.bus.icd2.set_tile_row(row);
        let row_end: u64 = vblank_end + (row as u64 + 1) * CYCLES_PER_TILE_ROW;
        let limit: u64 = if row_end < target {
            row_end
        } else {
            target
        };
        let now_fired: bool = self.check_irq(irq_at, limit, fired);
        self.run_until(limit);
        now_fired
    }

    /// Run the slices of all tile rows.
    fn run_rows(&mut self, irq_at: Option<u64>, vblank_end: u64, target: u64) -> (fired: bool)
        requires
            old(self)@.wf(),
            target + MAX_STEP_CYCLES <= u64::MAX,
            vblank_end + 0x100_0000 <= u64::MAX,
            row_start_bound(vblank_end, target, 0, old(self).cpu.cycles),
        ensures
            final(self)@.wf(),
            (FrameRun { sys: final(self)@, irq_fired: fired }) == rows_run(
                FrameRun { sys: old(self)@, irq_fired: false },
                irq_at,
                vblank_end,
                target,
                18,
            ),
            row_start_bound(vblank_end, target, 18, final(self).cpu.cycles),
            final(self).frame_count == old(self).frame_count,
    {
        let mut fired: bool = false;
        let mut row: u8 = 0;
        let ghost r0 = FrameRun { sys: self@, irq_fired: false };
        while row < 18
            invariant
                row <= 18,
                self@.wf(),
                target + MAX_STEP_CYCLES <= u64::MAX,
                vblank_end + 0x100_0000 <= u64::MAX,
                row_start_bound(vblank_end, target, row as int, self.cpu.cycles),
                (FrameRun { sys: self@, irq_fired: fired }) == rows_run(
                    r0,
                    irq_at,
                    vblank_end,
                    target,
                    row as nat,
                ),
                self.frame_count == r0.sys.frame_count,
            decreases 18 - row,
        {
            fired = self.run_row(irq_at, vblank_end, target, row, fired);
            row = row + 1;
        }
        fired
    }

    /// Release the IRQ line, open the gates, and count the frame.
    fn end_frame(&mut self, fired: bool)
        requires
            old(self)@.wf(),
            old(self).frame_count < u64::MAX,
        ensures
            final(self)@ == frame_ended(FrameRun { sys: old(self)@, irq_fired: fired }),
            final(self)@.wf(),
            final(self).cpu.cycles == old(self).cpu.cycles,
    {
        let ghost before = self@;
        if fired {
            self.cpu.irq_line = false;
        }
        if self.frame_count > 30 {
            self.open_gate(0x02F6, 1);
            self.open_gate(0x02F8, 1);
            self.open_gate(0x02CA, 1);
            self.open_gate(0x0C4F, 0xFF);
            self.open_gate(0x0C48, 1);
            assert(self@.bus.wram =~= gates_opened(before.bus.wram));
            self.cpu.p = self.cpu.p & !FLAG_I;
        }
        self.frame_count = self.frame_count + 1;
    }

    /// Run one frame (about 357,366 master cycles), from the start of vertical
    /// blank to the next.
    pub fn run_frame(&mut self)
        requires
            old(self)@.wf(),
            old(self).cpu.cycles + FRAME_HEADROOM <= u64::MAX,
            old(self).bus.nmi_fire_count < u64::MAX,
            old(self).frame_count < u64::MAX,
        ensures
            final(self)@ == frame_run(old(self)@),
            final(self)@.wf(),
            final(self).cpu.cycles <= old(self).cpu.cycles + SNES_CYCLES_PER_FRAME
                + MAX_STEP_CYCLES,
    {
        let frame_start: u64 = self.cpu.cycles;
        let target: u64 = frame_start + SNES_CYCLES_PER_FRAME;
        let vblank_end: u64 = frame_start + VBLANK_LINES * CYCLES_PER_SCANLINE;
        self.begin_vblank(vblank_end);
        self.run_until(vblank_end);
        self.begin_display(vblank_end);
        let irq_at: Option<u64> = if self.bus.nmitimen & 0x30 != 0 {
            Some(vblank_end + self.bus.vtime as u64 * CYCLES_PER_SCANLINE)
        } else {
            None
        };
        let mut fired: bool = self.run_rows(irq_at, vblank_end, target);
        self.bus.icd2.set_tile_row(VBLANK_ROW);
        fired = self.check_irq(irq_at, target, fired);
        self.run_until(target);
        self.end_frame(fired);
    }
}

/// Before the slice of a tile row the processor is at most one step past the
/// end of the slice before it.
pub open spec fn row_start_bound(vblank_end: u64, target: u64, row: int, cycles: u64) -> bool {
    cycles <= row_limit(vblank_end, target, row - 1) + MAX_STEP_CYCLES
}

// ── Packets, snapshots and extraction ──

/// The system after power-on and reset: the program counter comes from the
/// reset vector at the end of the first ROM bank.
pub open spec fn sys_initial(rom: Seq<u8>) -> SysView {
    SysView {
        cpu: Cpu65816 {
            a: 0,
            x: 0,
            y: 0,
            s: 0x01FF,
            pc: word(rom_byte(rom, 0x7FFC), rom_byte(rom, 0x7FFD)),
            pbr: 0,
            dbr: 0,
            d: 0,
            p: FLAG_M | FLAG_X | FLAG_I,
            emulation: true,
            waiting: false,
            stopped: false,
            nmi_pending: false,
            nmi_line: false,
            nmi_prev: false,
            irq_line: false,
            cycles: 0,
        },
        bus: bus_initial(rom),
        frame_count: 0,
    }
}

/// Command number of a packet.
pub open spec fn packet_command(data: Seq<u8>) -> int {
    data[0] as int / 8
}

/// Working memory after a packet. A DATA_SND packet (command $0F) to bank $00
/// or $7E stores up to eleven of its bytes; no other packet touches it.
pub open spec fn data_sent(wram: Seq<u8>, data: Seq<u8>) -> Seq<u8> {
    let start = data[1] + 0x100 * data[2];
    let n = if data[4] < 11 {
        data[4] as int
    } else {
        11
    };
    if packet_command(data) == 0x0F && (data[3] == 0x00 || data[3] == 0x7E) {
        Seq::new(
            wram.len(),
            |i: int|
                if start <= i < start + n {
                    data[5 + (i - start)]
                } else {
                    wram[i]
                },
        )
    } else {
        wram
    }
}

/// The system after a command packet.
pub open spec fn sys_packet_fed(s: SysView, data: Seq<u8>) -> SysView {
    SysView {
        bus: BusView {
            wram: data_sent(s.bus.wram, data),
            icd2: packet_fed(s.bus.icd2, data),
            ..s.bus
        },
        ..s
    }
}

/// What a snapshot restores, for a system with the given ROM.
pub open spec fn snapshot_view(s: SnesSnapshot, rom: Seq<u8>) -> SysView {
    SysView {
        cpu: s.cpu,
        bus: BusView {
            rom,
            wram: s.bus_wram@,
            ppu: s.bus_ppu@,
            dma: s.bus_dma.channels@,
            icd2: s.bus_icd2@,
            nmitimen: s.nmitimen,
            rdnmi: s.rdnmi,
            timeup: s.timeup,
            hvbjoy: s.hvbjoy,
            joy1: s.joy1,
            joy2: s.joy2,
            wrmpya: s.wrmpya,
            wrmpyb: s.wrmpyb,
            wrdiv: s.wrdiv,
            wrdivb: s.wrdivb,
            rddiv: s.rddiv,
            rdmpy: s.rdmpy,
            wrio: s.wrio,
            htime: s.htime,
            vtime: s.vtime,
            mdmaen: s.mdmaen,
            hdmaen: s.hdmaen,
            memsel: s.memsel,
            apu_out: s.apu_out@,
            apu_in: s.apu_in@,
            apu_state: s.apu_state,
            apu_last_counter: s.apu_last_counter,
            apu_port1_val: s.apu_port1_val,
            apu_echo_pending: s.apu_echo_pending,
            nmi_fire_count: s.nmi_fire_count,
            wmadd: s.wmadd,
            active_display_start: s.active_display_start,
            current_cpu_cycles: s.current_cpu_cycles,
            in_vblank: s.in_vblank,
            irq_ack: s.irq_ack,
        },
        frame_count: s.frame_count,
    }
}

/// A palette color, two bytes with the low byte first.
pub open spec fn color_at(cgram: Seq<u8>, i: int) -> u16 {
    (cgram[2 * i] + 0x100 * cgram[2 * i + 1]) as u16
}

/// Colors from one background palette to the next: BG1 has 4 colors in mode 0
/// and 16 in the others.
pub open spec fn palette_stride(bgmode: u8) -> int {
    if bgmode % 8 == 0 {
        4
    } else {
        16
    }
}

/// A tilemap word of video memory; beyond its end the map reads as zero.
pub open spec fn map_word(vram: Seq<u8>, off: int) -> u16 {
    if off + 1 < vram.len() {
        (vram[off] + 0x100 * vram[off + 1]) as u16
    } else {
        0
    }
}

/// Byte offset of a background's tilemap.
pub open spec fn map_base(sc: u8) -> int {
    sc as int / 4 * 0x800
}

/// Border tiles: 8 KB at the character base of BG2, or zeros when they do not
/// fit into video memory.
pub open spec fn border_tiles_of(vram: Seq<u8>, chr: u8) -> Seq<u8> {
    let base = chr as int / 16 * 0x2000;
    Seq::new(
        0x2000,
        |i: int|
            if base + 0x2000 <= vram.len() {
                vram[base + i]
            } else {
                0
            },
    )
}

pub open spec fn border_map_of(vram: Seq<u8>, sc: u8) -> Seq<u16> {
    Seq::new(896, |i: int| map_word(vram, map_base(sc) + 2 * i))
}

impl SnesSys {
    /// A system with the given program ROM, reset.
    pub fn new(rom: Vec<u8>) -> (r: Self)
        ensures
            r@ == sys_initial(rom@),
            r@.wf(),
    {
        let mut bus = SnesBus::new(rom);
        let mut cpu = Cpu65816::new();
        cpu.reset(&mut bus);
        SnesSys { cpu, bus, frame_count: 0 }
    }

    /// True once the BIOS has finished its handshake with the Game Boy.
    pub fn bios_ready(&self) -> (r: bool)
        requires
            self@.wf(),
        ensures
            r == (self@.bus.wram[0x02F8] != 0),
    {
        self.bus.wram[0x02F8] != 0
    }

    /// Hand over a command packet. DATA_SND packets are applied to working
    /// memory at once.
    pub fn feed_packet(&mut self, data: &[u8; 16])
        requires
            old(self)@.wf(),
        ensures
            final(self)@ == sys_packet_fed(old(self)@, data@),
            final(self)@.wf(),
    {
        let ghost before = self@;
        if data[0] / 8 == 0x0F && (data[3] == 0x00 || data[3] == 0x7E) {
            let start: usize = data[1] as usize + 0x100 * (data[2] as usize);
            let n: usize = if data[4] < 11 {
                data[4] as usize
            } else {
                11
            };
            let mut i: usize = 0;
            while i < n
                invariant
                    i <= n <= 11,
                    start <= 0xFFFF,
                    before.wf(),
                    self@ == (SysView {
                        bus: BusView { wram: self@.bus.wram, ..before.bus },
                        ..before
                    }),
                    self@.bus.wram.len() == before.bus.wram.len(),
                    forall|k: int|
                        0 <= k < before.bus.wram.len() ==> #[trigger] self@.bus.wram[k] == (
                        if start <= k < start + i {
                            data@[5 + (k - start)]
                        } else {
                            before.bus.wram[k]
                        }),
                decreases n - i,
            {
                self.bus.wram[start + i] = data[5 + i];
                i = i + 1;
            }
            assert(self@.bus.wram =~= data_sent(before.bus.wram, data@));
        }
        self.bus.icd2.feed_packet(data);
    }

    /// Capture the state of the subsystem, without its ROM.
    pub fn take_snapshot(&self) -> (s: SnesSnapshot)
        ensures
            snapshot_view(s, self@.bus.rom) == self@,
    {
        let s = SnesSnapshot {
            cpu: self.cpu,
            bus_wram: copied(&self.bus.wram),
            bus_ppu: self.bus.ppu.clone(),
            bus_dma: self.bus.dma.clone(),
            bus_icd2: self.bus.icd2.clone(),
            nmitimen: self.bus.nmitimen,
            rdnmi: self.bus.rdnmi,
            timeup: self.bus.timeup,
            hvbjoy: self.bus.hvbjoy,
            joy1: self.bus.joy1,
            joy2: self.bus.joy2,
            wrmpya: self.bus.wrmpya,
            wrmpyb: self.bus.wrmpyb,
            wrdiv: self.bus.wrdiv,
            wrdivb: self.bus.wrdivb,
            rddiv: self.bus.rddiv,
            rdmpy: self.bus.rdmpy,
            wrio: self.bus.wrio,
            htime: self.bus.htime,
            vtime: self.bus.vtime,
            mdmaen: self.bus.mdmaen,
            hdmaen: self.bus.hdmaen,
            memsel: self.bus.memsel,
            apu_out: self.bus.apu_out,
            apu_in: self.bus.apu_in,
            apu_state: self.bus.apu_state,
            apu_last_counter: self.bus.apu_last_counter,
            apu_port1_val: self.bus.apu_port1_val,
            apu_echo_pending: self.bus.apu_echo_pending,
            nmi_fire_count: self.bus.nmi_fire_count,
            wmadd: self.bus.wmadd,
            active_display_start: self.bus.active_display_start,
            current_cpu_cycles: self.bus.current_cpu_cycles,
            in_vblank: self.bus.in_vblank,
            irq_ack: self.bus.irq_ack,
            frame_count: self.frame_count,
        };
        assert(snapshot_view(s, self@.bus.rom) =~= self@);
        s
    }

    /// Restore a captured state; the ROM stays.
    pub fn apply_snapshot(&mut self, s: &SnesSnapshot)
        ensures
            final(self)@ == snapshot_view(*s, old(self)@.bus.rom),
    {
        self.cpu = s.cpu;
        self.bus.wram = copied(&s.bus_wram);
        self.bus.ppu = s.bus_ppu.clone();
        self.bus.dma = s.bus_dma.clone();
        self.bus.icd2 = s.bus_icd2.clone();
        self.bus.nmitimen = s.nmitimen;
        self.bus.rdnmi = s.rdnmi;
        self.bus.timeup = s.timeup;
        self.bus.hvbjoy = s.hvbjoy;
        self.bus.joy1 = s.joy1;
        self.bus.joy2 = s.joy2;
        self.bus.wrmpya = s.wrmpya;
        self.bus.wrmpyb = s.wrmpyb;
        self.bus.wrdiv = s.wrdiv;
        self.bus.wrdivb = s.wrdivb;
        self.bus.rddiv = s.rddiv;
        self.bus.rdmpy = s.rdmpy;
        self.bus.wrio = s.wrio;
        self.bus.htime = s.htime;
        self.bus.vtime = s.vtime;
        self.bus.mdmaen = s.mdmaen;
        self.bus.hdmaen = s.hdmaen;
        self.bus.memsel = s.memsel;
        self.bus.apu_out = s.apu_out;
        self.bus.apu_in = s.apu_in;
        self.bus.apu_state = s.apu_state;
        self.bus.apu_last_counter = s.apu_last_counter;
        self.bus.apu_port1_val = s.apu_port1_val;
        self.bus.apu_echo_pending = s.apu_echo_pending;
        self.bus.nmi_fire_count = s.nmi_fire_count;
        self.bus.wmadd = s.wmadd;
        self.bus.active_display_start = s.active_display_start;
        self.bus.current_cpu_cycles = s.current_cpu_cycles;
        self.bus.in_vblank = s.in_vblank;
        self.bus.irq_ack = s.irq_ack;
        self.frame_count = s.frame_count;
        assert(self@ =~= snapshot_view(*s, old(self)@.bus.rom));
    }

    /// Hand over a picture from the Game Boy.
    pub fn feed_scanlines(&mut self, shade_buf: &[u8])
        requires
            old(self)@.wf(),
        ensures
            final(self)@ == (SysView {
                bus: BusView {
                    icd2: scanlines_fed(old(self)@.bus.icd2, shade_buf@),
                    ..old(self)@.bus
                },
                ..old(self)@
            }),
            final(self)@.wf(),
    {
        self.bus.icd2.feed_scanlines(shade_buf);
    }

    fn color(&self, i: usize) -> (c: u16)
        requires
            i < 256,
        ensures
            c == color_at(self@.bus.ppu.cgram, i as int),
    {
        self.bus.ppu.cgram[2 * i] as u16 + 0x100 * (self.bus.ppu.cgram[2 * i + 1] as u16)
    }

    fn colors4(&self, i: usize) -> (r: [u16; 4])
        requires
            i <= 252,
        ensures
            forall|k: int| 0 <= k < 4 ==> #[trigger] r@[k] == color_at(self@.bus.ppu.cgram, i + k),
    {
        [self.color(i), self.color(i + 1), self.color(i + 2), self.color(i + 3)]
    }

    fn colors16(&self, i: usize) -> (r: [u16; 16])
        requires
            i <= 240,
        ensures
            forall|k: int| 0 <= k < 16 ==> #[trigger] r@[k] == color_at(self@.bus.ppu.cgram, i + k),
    {
        let mut r: [u16; 16] = [0u16;16];
        let mut k: usize = 0;
        while k < 16
            invariant
                k <= 16,
                i <= 240,
                forall|j: int|
                    0 <= j < k ==> #[trigger] r@[j] == color_at(self@.bus.ppu.cgram, i + j),
            decreases 16 - k,
        {
            r[k] = self.color(i + k);
            k = k + 1;
        }
        r
    }

    /// The four Super Game Boy palettes, from palette memory.
    pub fn extract_palettes(&self) -> (pals: [[u16; 4]; 4])
        ensures
            forall|p: int, c: int|
                0 <= p < 4 && 0 <= c < 4 ==> #[trigger] pals@[p]@[c] == color_at(
                    self@.bus.ppu.cgram,
                    p * palette_stride(self@.bus.ppu.bgmode) + c,
                ),
    {
        let stride: usize = if self.bus.ppu.bgmode % 8 == 0 {
            4
        } else {
            16
        };
        [self.colors4(0), self.colors4(stride), self.colors4(2 * stride), self.colors4(3 * stride)]
    }

    /// Border tiles, tilemap (32x28) and palettes, from video memory.
    pub fn extract_border(&self) -> (r: (Vec<u8>, Vec<u16>, [[u16; 16]; 4]))
        requires
            self@.wf(),
        ensures
            r.0@ == border_tiles_of(self@.bus.ppu.vram, self@.bus.ppu.bg_chr[0]),
            r.1@ == border_map_of(self@.bus.ppu.vram, self@.bus.ppu.bg_sc[1]),
            forall|p: int, c: int|
                0 <= p < 4 && 0 <= c < 16 ==> #[trigger] r.2@[p]@[c] == color_at(
                    self@.bus.ppu.cgram,
                    (p + 4) * 16 + c,
                ),
    {
        let tile_base: usize = self.bus.ppu.bg_chr[0] as usize / 16 * 0x2000;
        let fits: bool = tile_base + 0x2000 <= self.bus.ppu.vram.len();
        let mut tiles: Vec<u8> = Vec::new();
        while tiles.len() < 0x2000
            invariant
                tiles.len() <= 0x2000,
                tile_base == self@.bus.ppu.bg_chr[0] as int / 16 * 0x2000,
                fits == (tile_base + 0x2000 <= self@.bus.ppu.vram.len()),
                forall|i: int|
                    0 <= i < tiles.len() ==> tiles@[i] == border_tiles_of(
                        self@.bus.ppu.vram,
                        self@.bus.ppu.bg_chr[0],
                    )[i],
            decreases 0x2000 - tiles.len(),
        {
            let b: u8 = if fits {
                self.bus.ppu.vram[tile_base + tiles.len()]
            } else {
                0
            };
            tiles.push(b);
        }
        assert(tiles@ =~= border_tiles_of(self@.bus.ppu.vram, self@.bus.ppu.bg_chr[0]));
        let base: usize = self.bus.ppu.bg_sc[1] as usize / 4 * 0x800;
        let mut tilemap: Vec<u16> = Vec::new();
        while tilemap.len() < 896
            invariant
                tilemap.len() <= 896,
                base == map_base(self@.bus.ppu.bg_sc[1]),
                base <= 0x2_0000,
                forall|i: int|
                    0 <= i < tilemap.len() ==> tilemap@[i] == map_word(
                        self@.bus.ppu.vram,
                        base + 2 * i,
                    ),
            decreases 896 - tilemap.len(),
        {
            let w: u16 = self.vram_word(base + 2 * tilemap.len());
            tilemap.push(w);
        }
        assert(tilemap@ =~= border_map_of(self@.bus.ppu.vram, self@.bus.ppu.bg_sc[1]));
        let palettes = [self.colors16(64), self.colors16(80), self.colors16(96), self.colors16(112)];
        (tiles, tilemap, palettes)
    }

    fn vram_word(&self, off: usize) -> (w: u16)
        requires
            off <= 0x10_0000,
        ensures
            w == map_word(self@.bus.ppu.vram, off as int),
    {
        if off + 1 < self.bus.ppu.vram.len() {
            self.bus.ppu.vram[off] as u16 + 0x100 * (self.bus.ppu.vram[off + 1] as u16)
        } else {
            0
        }
    }

    /// Palette number of every tile of the Game Boy picture, from the tilemap
    /// of BG1 (bits 10-12 of each entry).
    pub fn extract_attr_map(&self) -> (r: Option<[[u8; 20]; 18]>)
        requires
            self@.wf(),
        ensures
            r is Some,
            forall|ty: int, tx: int|
                0 <= ty < 18 && 0 <= tx < 20 ==> #[trigger] r->0@[ty]@[tx] == map_word(
                    self@.bus.ppu.vram,
                    map_base(self@.bus.ppu.bg_sc[0]) + 2 * (32 * ty + tx),
                ) / 0x400 % 8,
    {
        let base: usize = self.bus.ppu.bg_sc[0] as usize / 4 * 0x800;
        let mut map: [[u8; 20]; 18] = [[0u8;20];18];
        let mut ty: usize = 0;
        while ty < 18
            invariant
                ty <= 18,
                base == map_base(self@.bus.ppu.bg_sc[0]),
                base <= 0x2_0000,
                forall|y: int, x: int|
                    0 <= y < ty && 0 <= x < 20 ==> #[trigger] map@[y]@[x] == map_word(
                        self@.bus.ppu.vram,
                        base + 2 * (32 * y + x),
                    ) / 0x400 % 8,
            decreases 18 - ty,
        {
            let mut row: [u8; 20] = [0u8;20];
            let mut tx: usize = 0;
            while tx < 20
                invariant
                    tx <= 20,
                    ty < 18,
                    base <= 0x2_0000,
                    forall|x: int|
                        0 <= x < tx ==> #[trigger] row@[x] == map_word(
                            self@.bus.ppu.vram,
                            base + 2 * (32 * ty + x),
                        ) / 0x400 % 8,
                decreases 20 - tx,
            {
                let w: u16 = self.vram_word(base + 2 * (32 * ty + tx));
                row[tx] = (w / 0x400 % 8) as u8;
                tx = tx + 1;
            }
            map[ty] = row;
            ty = ty + 1;
        }
        Some(map)
    }
}

/// A snapshot restores, on any system, the whole state it was taken from but
/// for the ROM, which stays that system's own.
pub proof fn law_snapshot_round_trip(taken_from: SysView, s: SnesSnapshot, applied_to: SysView)
    requires
        snapshot_view(s, taken_from.bus.rom) == taken_from,
    ensures
        snapshot_view(s, applied_to.bus.rom) == (SysView {
            bus: BusView { rom: applied_to.bus.rom, ..taken_from.bus },
            ..taken_from
        }),
{
}

} // verus!
