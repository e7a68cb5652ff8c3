//! Laws of the whole console: where it starts, what a frame signals, and what a
//! packet of data leaves in memory.

use vstd::prelude::*;

use crate::snes::bus::{bus_value, region, BusView, Region};
use crate::snes::icd2::icd2_read;
use crate::snes::{
    display_begun, frame_ended, irq_position, sys_initial, sys_packet_fed, vblank_begun, FrameRun,
    SysView,
};

verus! {

/// The console starts at the address that stands at $7FFC of its program, in
/// emulation mode with narrow registers, interrupts masked and an empty stack.
pub proof fn law_start(rom: Seq<u8>)
    requires
        rom.len() >= 0x8000,
    ensures
        ({
            let c = sys_initial(rom).cpu;
            &&& c.pc as int == rom[0x7FFC] + 0x100 * rom[0x7FFD]
            &&& c.emulation
            &&& c.p == 0x34
            &&& c.s == 0x1FF
            &&& c.pbr == 0 && c.dbr == 0 && c.d == 0
            &&& !c.stopped && !c.waiting
            &&& sys_initial(rom).frame_count == 0
        }),
{
    assert(0x20u8 | 0x10u8 | 0x04u8 == 0x34u8) by (bit_vector);
}

/// The blank begins with its flags up at $4210 and $4212, and with the NMI line where
/// bit 7 of $4200 asks for it. It ends with the line and the second flag down.
pub proof fn law_blank_is_signalled(s: SysView, end: u64)
    requires
        s.wf(),
        s.bus.nmi_fire_count < u64::MAX,
    ensures
        ({
            let b = vblank_begun(s, end);
            let asked = s.bus.nmitimen as int / 128 == 1;
            &&& bus_value(b.bus, 0x4210) as int / 128 == 1
            &&& bus_value(b.bus, 0x4212) as int / 128 == 1
            &&& asked ==> b.cpu.nmi_line && b.bus.nmi_fire_count == s.bus.nmi_fire_count + 1
            &&& !asked ==> b.cpu == s.cpu && b.bus.nmi_fire_count == s.bus.nmi_fire_count
            &&& b.bus.in_vblank
            &&& b.bus.wram == s.bus.wram
        }),
        ({
            let d = display_begun(s, end);
            &&& !d.cpu.nmi_line
            &&& bus_value(d.bus, 0x4212) as int / 128 == 0
            &&& !d.bus.in_vblank
            &&& d.bus.active_display_start == end
            &&& d.bus.wram == s.bus.wram
        }),
{
    assert(region(0x4210) == Region::CpuIo(0x4210));
    assert(region(0x4212) == Region::CpuIo(0x4212));
}

/// With bit 4 or 5 of $4200 an IRQ comes at the line that is set, 1364 cycles to a
/// line from the first of the picture on.
pub proof fn law_irq_comes_at_its_line(b: BusView, end: u64)
    requires
        end + 0x1_0000 * 1364 <= u64::MAX,
    ensures
        b.nmitimen as int / 16 % 4 == 0 ==> irq_position(b, end) is None,
        b.nmitimen as int / 16 % 4 != 0 ==> irq_position(b, end) == Some(
            (end + 1364 * b.vtime) as u64,
        ),
{
    lemma_irq_bits(b.nmitimen);
}

proof fn lemma_irq_bits(v: u8)
    by (bit_vector)
    ensures
        (v & 0x30 != 0) == (v / 16 % 4 != 0),
{
}

/// A frame that ends is counted, and its IRQ is taken back. From the thirty-second
/// on, the waiting flags of the program that are still zero are set.
pub proof fn law_frame_ends(r: FrameRun, i: int)
    requires
        r.sys.wf(),
        r.sys.frame_count < u64::MAX,
        0 <= i < r.sys.bus.wram.len(),
    ensures
        ({
            let e = frame_ended(r);
            let gate = i == 0x02F6 || i == 0x02F8 || i == 0x02CA || i == 0x0C48 || i == 0x0C4F;
            let before = r.sys.bus.wram[i];
            &&& e.frame_count == r.sys.frame_count + 1
            &&& r.irq_fired ==> !e.cpu.irq_line
            &&& !r.irq_fired ==> e.cpu.irq_line == r.sys.cpu.irq_line
            &&& e.cpu.pc == r.sys.cpu.pc && e.cpu.cycles == r.sys.cpu.cycles
            &&& e.bus.wram[i] == if r.sys.frame_count > 30 && before == 0 && gate {
                if i == 0x0C4F {
                    0xFF
                } else {
                    1
                }
            } else {
                before
            }
        }),
{
}

/// A packet is handed to the bridge. DATA_SND ($0F) into bank $00 or $7E also puts
/// its bytes, at most eleven, at their address; no other command touches memory.
pub proof fn law_packet_data_is_stored(s: SysView, data: Seq<u8>, i: int)
    requires
        s.wf(),
        data.len() == 16,
        0 <= i < s.bus.wram.len(),
    ensures
        ({
            let w = sys_packet_fed(s, data);
            let at = data[1] + 0x100 * data[2];
            let count = if data[4] < 11 {
                data[4] as int
            } else {
                11
            };
            let stores = data[0] as int / 8 == 0x0F && (data[3] == 0 || data[3] == 0x7E);
            &&& w.bus.wram[i] == if stores && 0 <= i - at < count {
                data[5 + i - at]
            } else {
                s.bus.wram[i]
            }
            &&& icd2_read(w.bus.icd2, 0x6002) == 1
            &&& forall|k: int|
                0 <= k < 16 ==> icd2_read(w.bus.icd2, (0x7000 + k) as u16) == #[trigger] data[k]
            &&& w.cpu == s.cpu
        }),
{
}

} // verus!
