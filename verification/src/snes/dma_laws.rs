//! Laws of DMA transfers: which byte goes where, and in which order.

use vstd::prelude::*;

use crate::snes::bus::{bus_written, dma_executed, region, BusView, Region, SnesBus};
use crate::snes::dma::{
    a_stepped, b_address, byte_moved, bytes_moved, channel_run, channels_run, DmaChannel, DmaPorts,
    DmaRun,
};
use crate::snes::ppu_regs::{remapped, vram_offset, PpuView};

verus! {

/// The registers that the bytes of a transfer go to in turn, counted from the
/// base register, for each of the eight modes.
pub open spec fn registers_in_turn(mode: u8) -> Seq<int> {
    if mode == 0 {
        seq![0]
    } else if mode == 1 {
        seq![0, 1]
    } else if mode == 2 || mode == 6 {
        seq![0, 0]
    } else if mode == 3 || mode == 7 {
        seq![0, 0, 1, 1]
    } else if mode == 4 {
        seq![0, 1, 2, 3]
    } else {
        seq![0, 1, 0, 1]
    }
}

/// The memory address of byte `i`: it counts up or down within its bank, or
/// stays.
pub open spec fn memory_address(c: DmaChannel, i: int) -> u32 {
    let bank = c.a1t as int / 0x1_0000;
    let start = c.a1t as int % 0x1_0000;
    if c.dmap & 0x08 != 0 {
        c.a1t
    } else if c.dmap & 0x10 != 0 {
        (bank * 0x1_0000 + (start - i) % 0x1_0000) as u32
    } else {
        (bank * 0x1_0000 + (start + i) % 0x1_0000) as u32
    }
}

/// The two addresses of every byte of a transfer, in order.
pub open spec fn moves(c: DmaChannel) -> Seq<(u32, u16)> {
    let turn = registers_in_turn(c.dmap & 0x07);
    Seq::new(
        if c.das == 0 {
            0x1_0000
        } else {
            c.das as nat
        },
        |i: int|
            (memory_address(c, i), (0x2100 + c.bbad + turn[i % (turn.len() as int)]) as u16),
    )
}

/// Bytes moved one after the other, each read and then written.
pub open spec fn carried_out<P: DmaPorts>(
    s: P::State,
    moves: Seq<(u32, u16)>,
    to_registers: bool,
) -> P::State
    decreases moves.len(),
{
    if moves.len() == 0 {
        s
    } else {
        let (a, b) = moves[0];
        let t = if to_registers {
            P::after_b_write(P::after_a_read(s, a), b, P::a_value(s, a))
        } else {
            P::after_a_write(s, a, P::b_value(s, b))
        };
        carried_out::<P>(t, moves.skip(1), to_registers)
    }
}

proof fn lemma_mode_bits(d: u8)
    by (bit_vector)
    ensures
        d & 0x07 == d % 8,
        (d & 0x08 != 0) == (d / 8 % 2 == 1),
        (d & 0x10 != 0) == (d / 16 % 2 == 1),
        (d & 0x80 != 0) == (d >= 0x80),
{
}

proof fn lemma_one_channel(ch: u8, k: u8)
    by (bit_vector)
    requires
        ch < 8,
        k < 8,
    ensures
        ((1u8 << ch) & (1u8 << k) != 0) == (k == ch),
{
}

proof fn lemma_register(c: DmaChannel, i: int)
    requires
        0 <= i,
    ensures
        ({
            let turn = registers_in_turn(c.dmap & 0x07);
            b_address(c, i) == (0x2100 + c.bbad + turn[i % (turn.len() as int)]) as u16
        }),
{
    lemma_mode_bits(c.dmap);
    let turn = registers_in_turn(c.dmap & 0x07);
    assert(turn.len() == 1 || turn.len() == 2 || turn.len() == 4);
}

proof fn lemma_bytes_moved<P: DmaPorts>(s: P::State, c: DmaChannel, i: int, n: nat)
    requires
        c.a1t <= 0xFF_FFFF,
        0 <= i,
        i + n <= moves(c).len(),
    ensures
        bytes_moved::<P>(s, c, memory_address(c, i), i, n) == (
            carried_out::<P>(s, moves(c).subrange(i, i + n), c.dmap & 0x80 == 0),
            memory_address(c, i + n),
        ),
    decreases n,
{
    lemma_mode_bits(c.dmap);
    let m = moves(c).subrange(i, i + n);
    if n > 0 {
        lemma_register(c, i);
        assert(m[0] == moves(c)[i]);
        assert(m.skip(1) =~= moves(c).subrange(i + 1, i + 1 + (n - 1)));
        let (a, b) = m[0];
        let t = if c.dmap & 0x80 == 0 {
            P::after_b_write(P::after_a_read(s, a), b, P::a_value(s, a))
        } else {
            P::after_a_write(s, a, P::b_value(s, b))
        };
        lemma_address_steps(c, i);
        lemma_bytes_moved::<P>(t, c, i + 1, (n - 1) as nat);
    } else {
        assert(m =~= Seq::<(u32, u16)>::empty());
    }
}

proof fn lemma_address_steps(c: DmaChannel, i: int)
    requires
        c.a1t <= 0xFF_FFFF,
        0 <= i,
    ensures
        a_stepped(c, memory_address(c, i)) == memory_address(c, i + 1),
{
    lemma_mode_bits(c.dmap);
    let bank = c.a1t as int / 0x1_0000;
    let start = c.a1t as int % 0x1_0000;
    let a = memory_address(c, i) as int;
    assert(0 <= bank < 0x100);
    if c.dmap & 0x08 == 0 {
        assert(a / 0x1_0000 == bank);
        if c.dmap & 0x10 != 0 {
            assert(a % 0x1_0000 == (start - i) % 0x1_0000);
            assert((a % 0x1_0000 - 1) % 0x1_0000 == (start - (i + 1)) % 0x1_0000);
        } else {
            assert(a % 0x1_0000 == (start + i) % 0x1_0000);
            assert((a % 0x1_0000 + 1) % 0x1_0000 == (start + (i + 1)) % 0x1_0000);
        }
    }
}

proof fn lemma_only_channel<P: DmaPorts>(r: DmaRun<P::State>, ch: u8, n: nat)
    requires
        ch < 8,
        n <= 8,
    ensures
        channels_run::<P>(r, 1u8 << ch, n) == if n <= ch {
            r
        } else {
            channel_run::<P>(r, ch as int)
        },
    decreases n,
{
    if n > 0 {
        lemma_only_channel::<P>(r, ch, (n - 1) as nat);
        lemma_one_channel(ch, (n - 1) as u8);
    }
}

/// A channel that is started moves its bytes one after the other: from memory
/// to the registers unless bit 7 of its mode asks for the other direction, from
/// consecutive addresses of one bank unless the mode says otherwise, and to the
/// registers that the mode names in turn. Then its count is zero and its address
/// stands behind the last byte; every byte takes eight cycles, and the other
/// channels are as they were.
pub proof fn law_transfer_moves_its_bytes<P: DmaPorts>(r: DmaRun<P::State>, ch: u8)
    requires
        ch < 8,
        r.channels.len() == 8,
        r.channels[ch as int].a1t <= 0xFF_FFFF,
    ensures
        ({
            let c = r.channels[ch as int];
            let after = channels_run::<P>(r, 1u8 << ch, 8);
            &&& after.ports == carried_out::<P>(r.ports, moves(c), c.dmap & 0x80 == 0)
            &&& after.channels == r.channels.update(
                ch as int,
                DmaChannel { a1t: memory_address(c, moves(c).len() as int), das: 0, ..c },
            )
            &&& after.cycles == r.cycles + 8 * moves(c).len()
        }),
{
    let c = r.channels[ch as int];
    lemma_only_channel::<P>(r, ch, 8);
    lemma_mode_bits(c.dmap);
    lemma_bytes_moved::<P>(r.ports, c, 0, moves(c).len());
    assert(memory_address(c, 0) == c.a1t);
    assert(moves(c).subrange(0, moves(c).len() as int) =~= moves(c));
}

proof fn lemma_mask_split(enable: u8, ch: u8, k: u8)
    by (bit_vector)
    requires
        ch < 8,
        k < 8,
    ensures
        (enable & !(1u8 << ch)) & (1u8 << k) == if k == ch {
            0
        } else {
            enable & (1u8 << k)
        },
{
}

proof fn lemma_first_channel<P: DmaPorts>(r: DmaRun<P::State>, enable: u8, ch: u8, n: nat)
    requires
        ch < 8,
        n <= 8,
        enable & (1u8 << ch) != 0,
        forall|k: u8| k < ch ==> enable & (1u8 << k) == 0,
    ensures
        channels_run::<P>(r, enable, n) == if n <= ch {
            r
        } else {
            channels_run::<P>(channel_run::<P>(r, ch as int), enable & !(1u8 << ch), n)
        },
        n <= ch ==> channels_run::<P>(r, enable & !(1u8 << ch), n) == r,
        forall|q: DmaRun<P::State>|
            n <= ch + 1 ==> #[trigger] channels_run::<P>(q, enable & !(1u8 << ch), n) == q,
    decreases n,
{
    if n > 0 {
        lemma_first_channel::<P>(r, enable, ch, (n - 1) as nat);
        lemma_mask_split(enable, ch, (n - 1) as u8);
        assert forall|q: DmaRun<P::State>| n <= ch + 1 implies #[trigger] channels_run::<P>(
            q,
            enable & !(1u8 << ch),
            n,
        ) == q by {
            assert(channels_run::<P>(q, enable & !(1u8 << ch), (n - 1) as nat) == q);
        }
    }
}

/// Channels that are started together run one after the other, the lowest
/// number first.
pub proof fn law_channels_run_in_order<P: DmaPorts>(r: DmaRun<P::State>, enable: u8, ch: u8)
    requires
        ch < 8,
        enable & (1u8 << ch) != 0,
        forall|k: u8| k < ch ==> enable & (1u8 << k) == 0,
    ensures
        channels_run::<P>(r, enable, 8) == channels_run::<P>(
            channels_run::<P>(r, 1u8 << ch, 8),
            enable & !(1u8 << ch),
            8,
        ),
{
    lemma_only_channel::<P>(r, ch, 8);
    lemma_first_channel::<P>(r, enable, ch, 8);
}

// ── To video memory ──

/// A channel that sends `2 * n` bytes of work memory from `src` on to the two
/// data registers of video memory.
pub open spec fn sends_words(c: DmaChannel, src: int, n: int) -> bool {
    &&& c.dmap == 0x01
    &&& c.bbad == 0x18
    &&& c.a1t == 0x7E_0000 + src
    &&& c.das == 2 * n
}

/// Where byte `i` of the words that start at word address `addr` stands.
pub open spec fn byte_place(addr: u16, i: int) -> int {
    (2 * addr + i) % 0x1_0000
}

proof fn lemma_word_place(addr: u16, i: int)
    requires
        0 <= i,
    ensures
        vram_offset(0x80, ((addr + i / 2) % 0x1_0000) as u16) + i % 2 == byte_place(addr, i),
{
    reveal(remapped);
    assert(0x80u8 as int / 4 % 4 == 0);
    let k = i / 2;
    assert(2 * ((addr + k) % 0x1_0000) % 0x1_0000 == (2 * addr + 2 * k) % 0x1_0000);
    assert((2 * addr + 2 * k) % 0x1_0000 % 2 == 0);
    assert(((2 * addr + 2 * k) % 0x1_0000) + i % 2 == (2 * addr + 2 * k + i % 2) % 0x1_0000);
}

proof fn lemma_source(src: int, i: int)
    requires
        0 <= src,
        0 <= i,
        src + i < 0x1_0000,
    ensures
        region((0x7E_0000 + src + i) as u32) == Region::Wram(src + i),
{
}

proof fn lemma_word_byte_sent(v: BusView, c: DmaChannel, addr: u16, src: int, i: int)
    requires
        v.wf(),
        c.dmap == 0x01,
        c.bbad == 0x18,
        v.ppu.vmain == 0x80,
        v.ppu.vmadd == (addr + i / 2) % 0x1_0000,
        0 <= src,
        0 <= i,
        src + i < 0x1_0000,
    ensures
        ({
            let a = (0x7E_0000 + src + i) as u32;
            &&& byte_moved::<SnesBus>(v, c, a, b_address(c, i)) == (BusView {
                ppu: PpuView {
                    vram: v.ppu.vram.update(byte_place(addr, i), v.wram[src + i]),
                    vmadd: ((addr + (i + 1) / 2) % 0x1_0000) as u16,
                    ..v.ppu
                },
                ..v
            })
            &&& a_stepped(c, a) == 0x7E_0000 + (src + (i + 1)) % 0x1_0000
        }),
{
    let a = (0x7E_0000 + src + i) as u32;
    lemma_source(src, i);
    lemma_word_place(addr, i);
    assert(b_address(c, i) == 0x2118 + i % 2);
    assert(SnesBus::a_value(v, a) == v.wram[src + i]);
    assert(SnesBus::after_a_read(v, a) == v);
}

proof fn lemma_places_differ(addr: u16, i: int, j: int)
    requires
        i < j < i + 0x1_0000,
    ensures
        byte_place(addr, i) != byte_place(addr, j),
{
}

#[verifier::rlimit(40)]
proof fn lemma_words_sent(v: BusView, c: DmaChannel, addr: u16, src: int, i: int, n: nat)
    requires
        v.wf(),
        c.dmap == 0x01,
        c.bbad == 0x18,
        v.ppu.vmain == 0x80,
        v.ppu.vmadd == (addr + i / 2) % 0x1_0000,
        0 <= src,
        0 <= i,
        src + i + n <= 0x1_0000,
    ensures
        ({
            let w = bytes_moved::<SnesBus>(v, c, (0x7E_0000 + (src + i) % 0x1_0000) as u32, i, n).0;
            &&& w.wram == v.wram
            &&& w.ppu.vmadd == (addr + (i + n) / 2) % 0x1_0000
            &&& forall|k: int|
                i <= k < i + n ==> w.ppu.vram[#[trigger] byte_place(addr, k)] == v.wram[src + k]
            &&& forall|p: int|
                0 <= p < 0x1_0000 && (forall|k: int| i <= k < i + n ==> byte_place(addr, k) != p)
                    ==> #[trigger] w.ppu.vram[p] == v.ppu.vram[p]
        }),
    decreases n,
{
    if n > 0 {
        let a = (0x7E_0000 + (src + i) % 0x1_0000) as u32;
        lemma_word_byte_sent(v, c, addr, src, i);
        let t = byte_moved::<SnesBus>(v, c, a, b_address(c, i));
        let p0 = byte_place(addr, i);
        assert(t.wf());
        lemma_words_sent(t, c, addr, src, i + 1, (n - 1) as nat);
        let w = bytes_moved::<SnesBus>(v, c, a, i, n).0;
        assert(w == bytes_moved::<SnesBus>(t, c, a_stepped(c, a), i + 1, (n - 1) as nat).0);
        assert forall|k: int| i <= k < i + n implies w.ppu.vram[#[trigger] byte_place(addr, k)]
            == v.wram[src + k] by {
            if k == i {
                assert forall|j: int| i + 1 <= j < i + n implies byte_place(addr, j) != p0 by {
                    lemma_places_differ(addr, i, j);
                }
                assert(w.ppu.vram[p0] == t.ppu.vram[p0]);
            }
        }
        assert forall|p: int|
            0 <= p < 0x1_0000 && (forall|k: int|
                i <= k < i + n ==> byte_place(addr, k) != p) implies #[trigger] w.ppu.vram[p]
            == v.ppu.vram[p] by {
            assert(byte_place(addr, i) != p);
            assert(w.ppu.vram[p] == t.ppu.vram[p]);
        }
    }
}

/// The usual upload to video memory: with the address advancing after the high
/// byte, a transfer of words leaves the bytes of work memory in video memory, in
/// order, from the word address on; nothing else of either memory changes.
pub proof fn law_words_reach_video_memory(v: BusView, ch: u8, addr: u16, src: int, n: int)
    requires
        v.wf(),
        ch < 8,
        1 <= n,
        0 <= src,
        src + 2 * n <= 0x1_0000,
        2 * n < 0x1_0000,
        sends_words(v.dma[ch as int], src, n),
        v.ppu.vmain == 0x80,
        v.ppu.vmadd == addr,
    ensures
        ({
            let w = bus_written(v, 0x420B, 1u8 << ch);
            &&& forall|k: int|
                0 <= k < 2 * n ==> w.ppu.vram[#[trigger] byte_place(addr, k)] == v.wram[src + k]
            &&& forall|p: int|
                0 <= p < 0x1_0000 && (forall|k: int| 0 <= k < 2 * n ==> byte_place(addr, k) != p)
                    ==> #[trigger] w.ppu.vram[p] == v.ppu.vram[p]
            &&& w.wram == v.wram
            &&& w.ppu.vmadd == (addr + n) % 0x1_0000
            &&& w.dma[ch as int].das == 0
            &&& w.dma[ch as int].a1t == 0x7E_0000 + (src + 2 * n) % 0x1_0000
        }),
{
    let m = 1u8 << ch;
    lemma_one_channel(ch, ch);
    assert(m != 0) by {
        if m == 0 {
            assert(0u8 & m == 0) by (bit_vector);
        }
    }
    assert(region(0x420B) == Region::CpuIo(0x420B));
    let v1 = BusView { mdmaen: m, ..v };
    let c = v.dma[ch as int];
    let r = DmaRun::<BusView> { ports: v1, channels: v1.dma, cycles: 0 };
    law_transfer_moves_its_bytes::<SnesBus>(r, ch);
    lemma_only_channel::<SnesBus>(r, ch, 8);
    assert(0x01u8 & 0x08 == 0 && 0x01u8 & 0x10 == 0) by (bit_vector);
    assert((0x7E_0000 + src) / 0x1_0000 == 0x7E || src == 0x1_0000);
    lemma_words_sent(v1, c, addr, src, 0, (2 * n) as nat);
    assert(dma_executed(v1, m) == bus_written(v, 0x420B, m));
}

} // verus!
