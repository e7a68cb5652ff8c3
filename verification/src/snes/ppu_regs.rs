//! SNES PPU register file. Nothing is rendered: writes are captured and video,
//! palette and sprite memory are stored, so that palettes and tiles can be
//! extracted from them.

use vstd::arithmetic::div_mod::lemma_fundamental_div_mod_converse;
use vstd::prelude::*;

use crate::bytes::{copied, zeroed};

verus! {

pub const VRAM_BYTES: usize = 0x1_0000;

/// Registers and memories of the SNES PPU.
pub struct SnesPpuRegs {
    /// Video memory, word-addressed, stored as bytes.
    pub vram: Vec<u8>,
    /// 256 colors of two bytes (RGB555).
    pub cgram: [u8; 512],
    /// Sprite memory: 512 bytes of low and 32 bytes of high table.
    pub oam: [u8; 544],
    /// $2115: increment mode.
    pub vmain: u8,
    /// $2116-17: word address.
    pub vmadd: u16,
    /// Word latched by the last address write.
    pub vram_prefetch: u16,
    /// $2121: palette byte address (9 bits).
    pub cgadd: u16,
    /// Low byte waiting for its high byte.
    pub cg_latch: u8,
    /// True when the next palette write is a high byte.
    pub cg_flipflop: bool,
    /// $2102-03: sprite word address.
    pub oamadd: u16,
    pub oam_latch: u8,
    /// Byte address of the next sprite write.
    pub oam_addr_internal: u16,
    pub inidisp: u8,
    pub bgmode: u8,
    pub mosaic: u8,
    /// $2107-210A: tilemap bases of the four backgrounds.
    pub bg_sc: [u8; 4],
    /// $210B-210C: character bases.
    pub bg_chr: [u8; 2],
    pub setini: u8,
}

/// Mathematical state of the register file.
#[verifier::ext_equal]
pub struct PpuView {
    pub vram: Seq<u8>,
    pub cgram: Seq<u8>,
    pub oam: Seq<u8>,
    pub vmain: u8,
    pub vmadd: u16,
    pub vram_prefetch: u16,
    pub cgadd: u16,
    pub cg_latch: u8,
    pub cg_flipflop: bool,
    pub oamadd: u16,
    pub oam_latch: u8,
    pub oam_addr_internal: u16,
    pub inidisp: u8,
    pub bgmode: u8,
    pub mosaic: u8,
    pub bg_sc: Seq<u8>,
    pub bg_chr: Seq<u8>,
    pub setini: u8,
}

impl View for SnesPpuRegs {
    type V = PpuView;

    open spec fn view(&self) -> PpuView {
        PpuView {
            vram: self.vram@,
            cgram: self.cgram@,
            oam: self.oam@,
            vmain: self.vmain,
            vmadd: self.vmadd,
            vram_prefetch: self.vram_prefetch,
            cgadd: self.cgadd,
            cg_latch: self.cg_latch,
            cg_flipflop: self.cg_flipflop,
            oamadd: self.oamadd,
            oam_latch: self.oam_latch,
            oam_addr_internal: self.oam_addr_internal,
            inidisp: self.inidisp,
            bgmode: self.bgmode,
            mosaic: self.mosaic,
            bg_sc: self.bg_sc@,
            bg_chr: self.bg_chr@,
            setini: self.setini,
        }
    }
}

impl PpuView {
    /// The memories have their hardware sizes.
    pub open spec fn wf(self) -> bool {
        &&& self.vram.len() == VRAM_BYTES
        &&& self.cgram.len() == 512
        &&& self.oam.len() == 544
        &&& self.bg_sc.len() == 4
        &&& self.bg_chr.len() == 2
    }
}

/// The register file after power-on.
pub open spec fn ppu_initial() -> PpuView {
    PpuView {
        vram: Seq::new(VRAM_BYTES as nat, |i: int| 0u8),
        cgram: Seq::new(512, |i: int| 0u8),
        oam: Seq::new(544, |i: int| 0u8),
        vmain: 0,
        vmadd: 0,
        vram_prefetch: 0,
        cgadd: 0,
        cg_latch: 0,
        cg_flipflop: false,
        oamadd: 0,
        oam_latch: 0,
        oam_addr_internal: 0,
        inidisp: 0x80,
        bgmode: 0,
        mosaic: 0,
        bg_sc: Seq::new(4, |i: int| 0u8),
        bg_chr: Seq::new(2, |i: int| 0u8),
        setini: 0,
    }
}

/// Word address after the rotation that VMAIN selects: the low 8, 9 or 10
/// bits are read as a 3-bit field above the rest and the field moves to the
/// bottom.
#[verifier::opaque]
pub open spec fn remapped(vmain: u8, word_addr: u16) -> int {
    let m = vmain as int / 4 % 4;
    let w = word_addr as int;
    if m == 0 {
        w
    } else if m == 1 {
        w / 256 * 256 + w % 32 * 8 + w / 32 % 8
    } else if m == 2 {
        w / 512 * 512 + w % 64 * 8 + w / 64 % 8
    } else {
        w / 1024 * 1024 + w % 128 * 8 + w / 128 % 8
    }
}

/// Byte offset of a word address in video memory.
pub open spec fn vram_offset(vmain: u8, word_addr: u16) -> int {
    2 * remapped(vmain, word_addr) % 0x1_0000
}

/// How far the word address advances after a data access.
pub open spec fn vram_step(vmain: u8) -> int {
    let m = vmain as int % 4;
    if m == 0 {
        1
    } else if m == 1 {
        32
    } else {
        128
    }
}

/// Word at the current address, as latched by an address write.
pub open spec fn prefetched(v: PpuView, vmadd: u16) -> u16 {
    let o = vram_offset(v.vmain, vmadd);
    (v.vram[o] + 0x100 * v.vram[o + 1]) as u16
}

pub open spec fn vmadd_set(v: PpuView, vmadd: u16) -> PpuView {
    PpuView { vmadd, vram_prefetch: prefetched(v, vmadd), ..v }
}

/// One byte of a word goes to video memory; the address advances after the
/// byte that bit 7 of VMAIN names.
pub open spec fn vram_written(v: PpuView, high: bool, val: u8) -> PpuView {
    let o = vram_offset(v.vmain, v.vmadd);
    let at = if high {
        o + 1
    } else {
        o
    };
    PpuView {
        vram: v.vram.update(at, val),
        vmadd: if (v.vmain >= 0x80) == high {
            ((v.vmadd + vram_step(v.vmain)) % 0x1_0000) as u16
        } else {
            v.vmadd
        },
        ..v
    }
}

pub open spec fn oamadd_set(v: PpuView, oamadd: u16) -> PpuView {
    PpuView { oamadd, oam_addr_internal: (2 * oamadd) as u16, ..v }
}

/// A sprite byte. Below 512 bytes are stored in pairs on the odd address.
pub open spec fn oam_written(v: PpuView, val: u8) -> PpuView {
    let a = v.oam_addr_internal as int;
    let next: u16 = if a + 1 >= 544 {
        0
    } else {
        (a + 1) as u16
    };
    if a < 512 && a % 2 == 0 {
        PpuView { oam_latch: val, oam_addr_internal: next, ..v }
    } else if a < 512 {
        PpuView {
            oam: v.oam.update(a - 1, v.oam_latch).update(a, val),
            oam_addr_internal: next,
            ..v
        }
    } else if a < 544 {
        PpuView { oam: v.oam.update(a, val), oam_addr_internal: next, ..v }
    } else {
        PpuView { oam_addr_internal: next, ..v }
    }
}

/// A palette byte. Colors are stored whole, on their high byte, with the top
/// bit cleared.
pub open spec fn cgram_written(v: PpuView, val: u8) -> PpuView {
    if !v.cg_flipflop {
        PpuView { cg_latch: val, cg_flipflop: true, ..v }
    } else {
        let i = v.cgadd as int % 512 / 2 * 2;
        PpuView {
            cgram: v.cgram.update(i, v.cg_latch).update(i + 1, (val % 0x80) as u8),
            cgadd: ((v.cgadd + 2) % 512) as u16,
            cg_flipflop: false,
            ..v
        }
    }
}

/// The register file after a write to `addr`.
pub open spec fn ppu_write(v: PpuView, addr: u16, val: u8) -> PpuView {
    if addr == 0x2100 {
        PpuView { inidisp: val, ..v }
    } else if addr == 0x2102 {
        oamadd_set(v, (v.oamadd / 0x100 % 2 * 0x100 + val) as u16)
    } else if addr == 0x2103 {
        oamadd_set(v, (val % 2 * 0x100 + v.oamadd % 0x100) as u16)
    } else if addr == 0x2104 {
        oam_written(v, val)
    } else if addr == 0x2105 {
        PpuView { bgmode: val, ..v }
    } else if addr == 0x2106 {
        PpuView { mosaic: val, ..v }
    } else if 0x2107 <= addr <= 0x210A {
        PpuView { bg_sc: v.bg_sc.update(addr - 0x2107, val), ..v }
    } else if addr == 0x210B || addr == 0x210C {
        PpuView { bg_chr: v.bg_chr.update(addr - 0x210B, val), ..v }
    } else if addr == 0x2115 {
        PpuView { vmain: val, ..v }
    } else if addr == 0x2116 {
        vmadd_set(v, (v.vmadd / 0x100 * 0x100 + val) as u16)
    } else if addr == 0x2117 {
        vmadd_set(v, (val * 0x100 + v.vmadd % 0x100) as u16)
    } else if addr == 0x2118 {
        vram_written(v, false, val)
    } else if addr == 0x2119 {
        vram_written(v, true, val)
    } else if addr == 0x2121 {
        PpuView { cgadd: (2 * val) as u16, cg_flipflop: false, ..v }
    } else if addr == 0x2122 {
        cgram_written(v, val)
    } else {
        v
    }
}

/// Byte that a read of `addr` returns.
pub open spec fn ppu_read(v: PpuView, addr: u16) -> u8 {
    if addr == 0x2139 {
        (v.vram_prefetch % 0x100) as u8
    } else if addr == 0x213A {
        (v.vram_prefetch / 0x100) as u8
    } else if addr == 0x213E || addr == 0x213F {
        1
    } else {
        0
    }
}

impl Clone for SnesPpuRegs {
    fn clone(&self) -> (r: Self)
        ensures
            r@ == self@,
    {
        SnesPpuRegs {
            vram: copied(&self.vram),
            cgram: self.cgram,
            oam: self.oam,
            vmain: self.vmain,
            vmadd: self.vmadd,
            vram_prefetch: self.vram_prefetch,
            cgadd: self.cgadd,
            cg_latch: self.cg_latch,
            cg_flipflop: self.cg_flipflop,
            oamadd: self.oamadd,
            oam_latch: self.oam_latch,
            oam_addr_internal: self.oam_addr_internal,
            inidisp: self.inidisp,
            bgmode: self.bgmode,
            mosaic: self.mosaic,
            bg_sc: self.bg_sc,
            bg_chr: self.bg_chr,
            setini: self.setini,
        }
    }
}

/// The word-address rotation stays inside the address space.
proof fn lemma_remapped_bounds(vmain: u8, w: u16)
    ensures
        0 <= remapped(vmain, w) <= 0xFFFF,
        0 <= vram_offset(vmain, w) <= 0xFFFE,
        vram_offset(vmain, w) % 2 == 0,
{
    reveal(remapped);
}

impl SnesPpuRegs {
    /// The register file after power-on.
    pub fn new() -> (p: Self)
        ensures
            p@ == ppu_initial(),
            p@.wf(),
    {
        let p = SnesPpuRegs {
            vram: zeroed(VRAM_BYTES),
            cgram: [0u8;512],
            oam: [0u8;544],
            vmain: 0,
            vmadd: 0,
            vram_prefetch: 0,
            cgadd: 0,
            cg_latch: 0,
            cg_flipflop: false,
            oamadd: 0,
            oam_latch: 0,
            oam_addr_internal: 0,
            inidisp: 0x80,
            bgmode: 0,
            mosaic: 0,
            bg_sc: [0u8;4],
            bg_chr: [0u8;2],
            setini: 0,
        };
        assert(p@ =~= ppu_initial());
        p
    }

    /// Byte offset of a word address under the VMAIN rotation.
    fn vram_byte_addr(&self, word_addr: u16) -> (r: usize)
        ensures
            r == vram_offset(self.vmain, word_addr),
            r <= 0xFFFE,
            r % 2 == 0,
    {
        proof {
            reveal(remapped);
            lemma_remapped_bounds(self.vmain, word_addr);
        }
        let w: u32 = word_addr as u32;
        let addr: u32 = match self.vmain / 4 % 4 {
            0 => w,
            1 => w / 256 * 256 + w % 32 * 8 + w / 32 % 8,
            2 => w / 512 * 512 + w % 64 * 8 + w / 64 % 8,
            _ => w / 1024 * 1024 + w % 128 * 8 + w / 128 % 8,
        };
        (2 * addr % 0x1_0000) as usize
    }

    fn vram_increment(&self) -> (r: u16)
        ensures
            r == vram_step(self.vmain),
    {
        match self.vmain % 4 {
            0 => 1,
            1 => 32,
            _ => 128,
        }
    }

    /// Set the video memory address and latch the word there.
    fn set_vmadd(&mut self, vmadd: u16)
        requires
            old(self)@.wf(),
        ensures
            final(self)@ == vmadd_set(old(self)@, vmadd),
    {
        self.vmadd = vmadd;
        let o: usize = self.vram_byte_addr(vmadd);
        self.vram_prefetch = self.vram[o] as u16 + 0x100 * (self.vram[o + 1] as u16);
    }

    fn write_oam(&mut self, val: u8)
        requires
            old(self)@.wf(),
        ensures
            final(self)@ == oam_written(old(self)@, val),
    {
        let a: usize = self.oam_addr_internal as usize;
        if a < 512 {
            if a % 2 == 0 {
                self.oam_latch = val;
            } else {
                self.oam[a - 1] = self.oam_latch;
                self.oam[a] = val;
            }
        } else if a < 544 {
            self.oam[a] = val;
        }
        if self.oam_addr_internal >= 543 {
            self.oam_addr_internal = 0;
        } else {
            self.oam_addr_internal = self.oam_addr_internal + 1;
        }
    }

    fn write_vram(&mut self, high: bool, val: u8)
        requires
            old(self)@.wf(),
        ensures
            final(self)@ == vram_written(old(self)@, high, val),
    {
        let o: usize = self.vram_byte_addr(self.vmadd);
        if high {
            self.vram[o + 1] = val;
        } else {
            self.vram[o] = val;
        }
        if (self.vmain >= 0x80) == high {
            self.vmadd = self.vmadd.wrapping_add(self.vram_increment());
        }
    }

    fn write_cgram(&mut self, val: u8)
        requires
            old(self)@.wf(),
        ensures
            final(self)@ == cgram_written(old(self)@, val),
    {
        if !self.cg_flipflop {
            self.cg_latch = val;
            self.cg_flipflop = true;
        } else {
            let i: usize = self.cgadd as usize % 512 / 2 * 2;
            self.cgram[i] = self.cg_latch;
            self.cgram[i + 1] = val % 0x80;
            self.cgadd = self.cgadd.wrapping_add(2) % 512;
            self.cg_flipflop = false;
        }
    }

    /// Write a register ($2100-$213F); other addresses are ignored.
    pub fn write(&mut self, addr: u16, val: u8)
        requires
            old(self)@.wf(),
        ensures
            final(self)@ == ppu_write(old(self)@, addr, val),
            final(self)@.wf(),
    {
        match addr {
            0x2100 => {
                self.inidisp = val;
            },
            0x2102 => {
                self.oamadd = self.oamadd / 0x100 % 2 * 0x100 + val as u16;
                self.oam_addr_internal = self.oamadd * 2;
            },
            0x2103 => {
                self.oamadd = (val % 2) as u16 * 0x100 + self.oamadd % 0x100;
                self.oam_addr_internal = self.oamadd * 2;
            },
            0x2104 => self.write_oam(val),
            0x2105 => {
                self.bgmode = val;
            },
            0x2106 => {
                self.mosaic = val;
            },
            0x2107 | 0x2108 | 0x2109 | 0x210A => {
                self.bg_sc[(addr - 0x2107) as usize] = val;
            },
            0x210B | 0x210C => {
                self.bg_chr[(addr - 0x210B) as usize] = val;
            },
            0x2115 => {
                self.vmain = val;
            },
            0x2116 => self.set_vmadd(self.vmadd / 0x100 * 0x100 + val as u16),
            0x2117 => self.set_vmadd(val as u16 * 0x100 + self.vmadd % 0x100),
            0x2118 => self.write_vram(false, val),
            0x2119 => self.write_vram(true, val),
            0x2121 => {
                self.cgadd = val as u16 * 2;
                self.cg_flipflop = false;
            },
            0x2122 => self.write_cgram(val),
            _ => {},
        }
    }

    /// Read a register. Most are stubbed to zero.
    pub fn read(&self, addr: u16) -> (v: u8)
        ensures
            v == ppu_read(self@, addr),
    {
        match addr {
            0x2139 => (self.vram_prefetch % 0x100) as u8,
            0x213A => (self.vram_prefetch / 0x100) as u8,
            0x213E | 0x213F => 1,
            _ => 0,
        }
    }
}

// ── Laws ──

/// The address rotation that VMAIN selects moves no two words to one place.
pub proof fn law_rotation_is_injective(vmain: u8, a: u16, b: u16)
    requires
        remapped(vmain, a) == remapped(vmain, b),
    ensures
        a == b,
{
    reveal(remapped);
    let m = vmain as int / 4 % 4;
    if m == 1 {
        lemma_rotated(a as int, b as int, 32);
    } else if m == 2 {
        lemma_rotated(a as int, b as int, 64);
    } else if m == 3 {
        lemma_rotated(a as int, b as int, 128);
    }
}

/// Two numbers made of three digits each, put together in another order, are
/// equal only if their digits are.
proof fn lemma_rotated(w: int, v: int, n: int)
    requires
        n == 32 || n == 64 || n == 128,
        w / (8 * n) * (8 * n) + w % n * 8 + w / n % 8 == v / (8 * n) * (8 * n) + v % n * 8 + v / n
            % 8,
    ensures
        w == v,
{
    lemma_digits(w, n);
    lemma_digits(v, n);
    let (p, q) = (w / (8 * n), v / (8 * n));
    let (l, k) = (w % n, v % n);
    let (m, j) = (w / n % 8, v / n % 8);
    // The lowest digit of both, then the middle one, then the rest.
    let x = p * n + l;
    let y = q * n + k;
    assert(8 * x + m == 8 * y + j) by (nonlinear_arith)
        requires
            p * (8 * n) + l * 8 + m == q * (8 * n) + k * 8 + j,
            x == p * n + l,
            y == q * n + k,
    ;
    assert(m == j && x == y);
    lemma_fundamental_div_mod_converse(x, n, p, l);
    lemma_fundamental_div_mod_converse(y, n, q, k);
}

proof fn lemma_digits(w: int, n: int)
    requires
        n == 32 || n == 64 || n == 128,
    ensures
        w == w / (8 * n) * (8 * n) + w / n % 8 * n + w % n,
{
    if n == 32 {
        assert(w == w / 256 * 256 + w / 32 % 8 * 32 + w % 32);
    } else if n == 64 {
        assert(w == w / 512 * 512 + w / 64 % 8 * 64 + w % 64);
    } else {
        assert(w == w / 1024 * 1024 + w / 128 % 8 * 128 + w % 128);
    }
}

/// The register file with the word address set, low byte first.
pub open spec fn address_set(v: PpuView, addr: u16) -> PpuView {
    ppu_write(
        ppu_write(v, 0x2116, (addr % 0x100) as u8),
        0x2117,
        (addr / 0x100) as u8,
    )
}

/// A word written to video memory reads back: set the address, write the low
/// and the high byte, set the address again, and read both. This asks for the
/// mode in which the address advances after the high byte.
pub proof fn law_vram_word_reads_back(v: PpuView, addr: u16, low: u8, high: u8)
    requires
        v.wf(),
        v.vmain >= 0x80,
    ensures
        ({
            let w = ppu_write(ppu_write(address_set(v, addr), 0x2118, low), 0x2119, high);
            let r = address_set(w, addr);
            &&& ppu_read(r, 0x2139) == low
            &&& ppu_read(r, 0x213A) == high
        }),
{
    let set = address_set(v, addr);
    assert(set.vmadd == addr);
    lemma_remapped_bounds(v.vmain, addr);
    let o = vram_offset(v.vmain, addr);
    let w1 = ppu_write(set, 0x2118, low);
    assert(w1.vmadd == addr);
    let w = ppu_write(w1, 0x2119, high);
    assert(w.vram[o] == low && w.vram[o + 1] == high);
    let r = address_set(w, addr);
    assert(r.vmadd == addr);
    assert(r.vram_prefetch == low + 0x100 * high);
}

/// A color written after its number is set is stored whole, without its top
/// bit, and the next color follows.
pub proof fn law_color_is_stored(v: PpuView, index: u8, low: u8, high: u8)
    requires
        v.wf(),
    ensures
        ({
            let w = ppu_write(ppu_write(ppu_write(v, 0x2121, index), 0x2122, low), 0x2122, high);
            &&& w.cgram == v.cgram.update(2 * index, low).update(
                2 * index + 1,
                (high % 0x80) as u8,
            )
            &&& w.cgadd == (2 * index + 2) % 512
            &&& !w.cg_flipflop
        }),
{
}

/// Two bytes written after a sprite address is set are stored there as a pair.
pub proof fn law_sprite_pair_is_stored(v: PpuView, word: u8, low: u8, high: u8)
    requires
        v.wf(),
    ensures
        ({
            let set = ppu_write(ppu_write(v, 0x2103, 0), 0x2102, word);
            let w = ppu_write(ppu_write(set, 0x2104, low), 0x2104, high);
            w.oam == v.oam.update(2 * word, low).update(2 * word + 1, high)
        }),
{
    let set = ppu_write(ppu_write(v, 0x2103, 0), 0x2102, word);
    assert(set.oamadd == word);
    assert(set.oam_addr_internal == 2 * word);
}

} // verus!
