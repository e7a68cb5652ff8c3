//! Laws of the registers of the picture unit.

use vstd::prelude::*;

use crate::snes::ppu_regs::{ppu_read, ppu_write, remapped, vram_offset, PpuView};

verus! {

/// Where the word at an address stands in video memory. The low eight, nine or ten
/// bits of the address are turned left by three where the mode asks for it.
pub open spec fn word_place(mode: u8, addr: u16) -> int {
    let m = mode as int / 4 % 4;
    let turn: int = if m == 1 {
        0x100
    } else if m == 2 {
        0x200
    } else {
        0x400
    };
    let low = addr as int % turn;
    let word = if m == 0 {
        addr as int
    } else {
        (addr - low) + (8 * low) % turn + 8 * low / turn
    };
    2 * (word % 0x8000)
}

proof fn lemma_turned_256(w: int)
    requires
        0 <= w,
    ensures
        w - w % 256 == w / 256 * 256,
        (8 * (w % 256)) % 256 == w % 32 * 8,
        8 * (w % 256) / 256 == w / 32 % 8,
{
    let low = w % 256;
    let high = w / 32 % 8;
    assert(low == high * 32 + w % 32);
    assert(8 * low == high * 256 + w % 32 * 8);
}

proof fn lemma_turned_512(w: int)
    requires
        0 <= w,
    ensures
        w - w % 512 == w / 512 * 512,
        (8 * (w % 512)) % 512 == w % 64 * 8,
        8 * (w % 512) / 512 == w / 64 % 8,
{
    let low = w % 512;
    let high = w / 64 % 8;
    assert(low == high * 64 + w % 64);
    assert(8 * low == high * 512 + w % 64 * 8);
}

proof fn lemma_turned_1024(w: int)
    requires
        0 <= w,
    ensures
        w - w % 1024 == w / 1024 * 1024,
        (8 * (w % 1024)) % 1024 == w % 128 * 8,
        8 * (w % 1024) / 1024 == w / 128 % 8,
{
    let low = w % 1024;
    let high = w / 128 % 8;
    assert(low == high * 128 + w % 128);
    assert(8 * low == high * 1024 + w % 128 * 8);
}

proof fn lemma_word_place(mode: u8, addr: u16)
    ensures
        word_place(mode, addr) == vram_offset(mode, addr),
        0 <= word_place(mode, addr) < 0xFFFF,
{
    reveal(remapped);
    let w = addr as int;
    let m = mode as int / 4 % 4;
    if m == 1 {
        lemma_turned_256(w);
    } else if m == 2 {
        lemma_turned_512(w);
    } else if m == 3 {
        lemma_turned_1024(w);
    }
    let r = remapped(mode, addr);
    assert(2 * (r % 0x8000) == 2 * r % 0x1_0000);
}

/// A write to $2118 or $2119 puts the low or the high byte of the word at the
/// address. The address moves on by 1, 32 or 128 words behind the byte that the mode
/// names, and nothing else changes.
pub proof fn law_vram_bytes_land(v: PpuView, val: u8)
    requires
        v.wf(),
    ensures
        ({
            let mode = v.vmain as int;
            let step: int = if mode % 4 == 0 {
                1
            } else if mode % 4 == 1 {
                32
            } else {
                128
            };
            let next = ((v.vmadd + step) % 0x1_0000) as u16;
            let at = word_place(v.vmain, v.vmadd);
            &&& ppu_write(v, 0x2118, val) == (PpuView {
                vram: v.vram.update(at, val),
                vmadd: if mode < 0x80 {
                    next
                } else {
                    v.vmadd
                },
                ..v
            })
            &&& ppu_write(v, 0x2119, val) == (PpuView {
                vram: v.vram.update(at + 1, val),
                vmadd: if mode >= 0x80 {
                    next
                } else {
                    v.vmadd
                },
                ..v
            })
        }),
{
    lemma_word_place(v.vmain, v.vmadd);
}

/// Setting the address fetches the word there, which $2139 and $213A then give.
pub proof fn law_vram_word_is_fetched(v: PpuView, addr: u16)
    requires
        v.wf(),
    ensures
        ({
            let w = ppu_write(
                ppu_write(v, 0x2116, (addr % 0x100) as u8),
                0x2117,
                (addr / 0x100) as u8,
            );
            let at = word_place(v.vmain, addr);
            &&& w.vmadd == addr
            &&& w.vram == v.vram
            &&& ppu_read(w, 0x2139) == v.vram[at]
            &&& ppu_read(w, 0x213A) == v.vram[at + 1]
        }),
{
    lemma_word_place(v.vmain, addr);
    let w1 = ppu_write(v, 0x2116, (addr % 0x100) as u8);
    assert(w1.vmadd % 0x100 == addr % 0x100);
    let w = ppu_write(w1, 0x2117, (addr / 0x100) as u8);
    assert(w.vmadd == addr);
}

/// The plain registers keep what is written to them.
pub proof fn law_plain_registers(v: PpuView, val: u8, k: int)
    requires
        v.wf(),
        0 <= k < 4,
    ensures
        ppu_write(v, 0x2100, val) == (PpuView { inidisp: val, ..v }),
        ppu_write(v, 0x2105, val) == (PpuView { bgmode: val, ..v }),
        ppu_write(v, 0x2106, val) == (PpuView { mosaic: val, ..v }),
        ppu_write(v, (0x2107 + k) as u16, val) == (PpuView { bg_sc: v.bg_sc.update(k, val), ..v }),
        k < 2 ==> ppu_write(v, (0x210B + k) as u16, val) == (PpuView {
            bg_chr: v.bg_chr.update(k, val),
            ..v
        }),
        ppu_write(v, 0x2115, val) == (PpuView { vmain: val, ..v }),
{
}

} // verus!
