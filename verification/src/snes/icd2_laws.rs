//! Laws of the bridge to the Game Boy: where its pixels and registers come out.

use vstd::prelude::*;

use crate::snes::icd2::{
    after_reads, icd2_after_read, icd2_read, icd2_write, law_tile_rows_keep_every_pixel,
    law_tile_rows_stream_out, packet_fed, plane_byte_at, scanlines_fed, shade_at, Icd2View,
};

verus! {

/// Bit `7 - i` of a byte, so that bit 0 of a row is its leftmost pixel.
pub open spec fn leftmost(b: u8, i: int) -> int {
    let v = b as int;
    if i == 0 {
        v / 128
    } else if i == 1 {
        v / 64 % 2
    } else if i == 2 {
        v / 32 % 2
    } else if i == 3 {
        v / 16 % 2
    } else if i == 4 {
        v / 8 % 2
    } else if i == 5 {
        v / 4 % 2
    } else if i == 6 {
        v / 2 % 2
    } else {
        v % 2
    }
}

/// A pixel of the first four tile rows comes out of the stream of its row: sixteen
/// bytes to a tile of eight by eight pixels, two to a line of it, the first with the
/// low bits of the shades and the second with the high bits, leftmost pixel first.
pub proof fn law_pixels_stream_out(v: Icd2View, shades: Seq<u8>, x: int, y: int)
    requires
        v.wf(),
        shades.len() == 160 * 144,
        0 <= x < 160,
        0 <= y < 32,
        shades[160 * y + x] < 4,
    ensures
        ({
            let shown = icd2_write(scanlines_fed(v, shades), 0x6001, (y / 8) as u8);
            let n = (16 * (x / 8) + 2 * (y % 8)) as nat;
            let low = icd2_read(after_reads(shown, n), 0x7800);
            let high = icd2_read(after_reads(shown, n + 1), 0x7800);
            leftmost(low, x % 8) + 2 * leftmost(high, x % 8) == shades[160 * y + x]
        }),
{
    let slot = (y / 8) as u8;
    let n = (16 * (x / 8) + 2 * (y % 8)) as nat;
    law_tile_rows_stream_out(v, shades, slot, n);
    law_tile_rows_stream_out(v, shades, slot, n + 1);
    law_tile_rows_keep_every_pixel(shades, x, y);
    assert(plane_byte_at(x, y) == slot * 320 + n);
    assert(shade_at(shades, x, y) == shades[160 * y + x]);
}

/// A packet announces itself at $6002 until its last byte is read, and its bytes
/// stand at $7000 to $700F.
pub proof fn law_packet_is_announced(v: Icd2View, data: Seq<u8>, i: int)
    requires
        v.wf(),
        data.len() == 16,
        0 <= i < 16,
    ensures
        ({
            let w = packet_fed(v, data);
            &&& icd2_read(w, 0x6002) == 1
            &&& icd2_read(w, (0x7000 + i) as u16) == data[i]
            &&& icd2_read(icd2_after_read(w, 0x700E), 0x6002) == 1
            &&& icd2_read(icd2_after_read(w, 0x700F), 0x6002) == 0
        }),
{
}

/// The control register reads back, the four controllers take their low byte, and
/// selecting a slot starts its stream anew.
pub proof fn law_bridge_registers(v: Icd2View, val: u8, k: int)
    requires
        v.wf(),
        0 <= k < 4,
    ensures
        icd2_write(v, 0x6003, val) == (Icd2View { control: val, ..v }),
        icd2_read(icd2_write(v, 0x6003, val), 0x6003) == val,
        ({
            let w = icd2_write(v, (0x6004 + k) as u16, val);
            &&& w.joy_data[k] as int % 0x100 == val
            &&& w.joy_data[k] as int / 0x100 == v.joy_data[k] as int / 0x100
            &&& w == (Icd2View { joy_data: v.joy_data.update(k, w.joy_data[k]), ..v })
        }),
        icd2_write(v, 0x6001, val).read_address == 0,
        icd2_write(v, 0x6001, val).read_bank == val as int % 4,
{
}

} // verus!
