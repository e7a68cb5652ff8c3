//! SNES DMA controller: eight channels of general-purpose DMA, used by the
//! Super Game Boy BIOS for bulk transfers to video memory.

use vstd::prelude::*;

verus! {

/// Registers of one DMA channel.
#[derive(Clone, Copy)]
pub struct DmaChannel {
    /// $43x0: transfer mode and direction.
    pub dmap: u8,
    /// $43x1: B-bus address ($21xx).
    pub bbad: u8,
    /// $43x2-x4: A-bus address (24 bits).
    pub a1t: u32,
    /// $43x5-x6: byte count (0 means 65536).
    pub das: u16,
    /// $43x7: indirect bank (HDMA only).
    pub dasb: u8,
    /// $43x8-x9: HDMA table address.
    pub a2a: u16,
    /// $43xA: HDMA line counter.
    pub ntrl: u8,
    /// $43xB: unused.
    pub unused: u8,
}

/// The two buses that a transfer runs between. `a_` is the full address space
/// of the A-bus, `b_` the registers $2100-$21FF.
pub trait DmaPorts: Sized {
    type State;

    spec fn ports(&self) -> Self::State;

    spec fn ports_valid(s: Self::State) -> bool;

    spec fn a_value(s: Self::State, addr: u32) -> u8;

    spec fn after_a_read(s: Self::State, addr: u32) -> Self::State;

    spec fn after_a_write(s: Self::State, addr: u32, val: u8) -> Self::State;

    spec fn b_value(s: Self::State, addr: u16) -> u8;

    spec fn after_b_write(s: Self::State, addr: u16, val: u8) -> Self::State;

    fn a_read(&mut self, addr: u32) -> (v: u8)
        requires
            Self::ports_valid(old(self).ports()),
        ensures
            v == Self::a_value(old(self).ports(), addr),
            final(self).ports() == Self::after_a_read(old(self).ports(), addr),
            Self::ports_valid(final(self).ports()),
    ;

    fn a_write(&mut self, addr: u32, val: u8)
        requires
            Self::ports_valid(old(self).ports()),
        ensures
            final(self).ports() == Self::after_a_write(old(self).ports(), addr, val),
            Self::ports_valid(final(self).ports()),
    ;

    fn b_read(&self, addr: u16) -> (v: u8)
        requires
            Self::ports_valid(self.ports()),
        ensures
            v == Self::b_value(self.ports(), addr),
    ;

    fn b_write(&mut self, addr: u16, val: u8)
        requires
            Self::ports_valid(old(self).ports()),
        ensures
            final(self).ports() == Self::after_b_write(old(self).ports(), addr, val),
            Self::ports_valid(final(self).ports()),
    ;
}

// ── Registers ──

/// Byte that register `reg` of a channel reads as.
pub open spec fn channel_read(c: DmaChannel, reg: int) -> u8 {
    if reg == 0x0 {
        c.dmap
    } else if reg == 0x1 {
        c.bbad
    } else if reg == 0x2 {
        (c.a1t % 0x100) as u8
    } else if reg == 0x3 {
        (c.a1t / 0x100 % 0x100) as u8
    } else if reg == 0x4 {
        (c.a1t / 0x1_0000 % 0x100) as u8
    } else if reg == 0x5 {
        (c.das % 0x100) as u8
    } else if reg == 0x6 {
        (c.das / 0x100) as u8
    } else if reg == 0x7 {
        c.dasb
    } else if reg == 0x8 {
        (c.a2a % 0x100) as u8
    } else if reg == 0x9 {
        (c.a2a / 0x100) as u8
    } else if reg == 0xA {
        c.ntrl
    } else if reg == 0xB || reg == 0xF {
        c.unused
    } else {
        0
    }
}

/// A channel after `val` was written to register `reg`.
pub open spec fn channel_write(c: DmaChannel, reg: int, val: u8) -> DmaChannel {
    if reg == 0x0 {
        DmaChannel { dmap: val, ..c }
    } else if reg == 0x1 {
        DmaChannel { bbad: val, ..c }
    } else if reg == 0x2 {
        DmaChannel { a1t: (c.a1t / 0x100 % 0x1_0000 * 0x100 + val) as u32, ..c }
    } else if reg == 0x3 {
        DmaChannel {
            a1t: (c.a1t / 0x1_0000 % 0x100 * 0x1_0000 + val * 0x100 + c.a1t % 0x100) as u32,
            ..c
        }
    } else if reg == 0x4 {
        DmaChannel { a1t: (val * 0x1_0000 + c.a1t % 0x1_0000) as u32, ..c }
    } else if reg == 0x5 {
        DmaChannel { das: (c.das / 0x100 * 0x100 + val) as u16, ..c }
    } else if reg == 0x6 {
        DmaChannel { das: (val * 0x100 + c.das % 0x100) as u16, ..c }
    } else if reg == 0x7 {
        DmaChannel { dasb: val, ..c }
    } else if reg == 0x8 {
        DmaChannel { a2a: (c.a2a / 0x100 * 0x100 + val) as u16, ..c }
    } else if reg == 0x9 {
        DmaChannel { a2a: (val * 0x100 + c.a2a % 0x100) as u16, ..c }
    } else if reg == 0xA {
        DmaChannel { ntrl: val, ..c }
    } else if reg == 0xB || reg == 0xF {
        DmaChannel { unused: val, ..c }
    } else {
        c
    }
}

/// Channel that a register address selects.
pub open spec fn channel_index(addr: u16) -> int {
    addr as int / 16 % 8
}

/// Register within the channel.
pub open spec fn channel_reg(addr: u16) -> int {
    addr as int % 16
}

pub open spec fn dma_read(chans: Seq<DmaChannel>, addr: u16) -> u8 {
    channel_read(chans[channel_index(addr)], channel_reg(addr))
}

pub open spec fn dma_write(chans: Seq<DmaChannel>, addr: u16, val: u8) -> Seq<DmaChannel> {
    let i = channel_index(addr);
    chans.update(i, channel_write(chans[i], channel_reg(addr), val))
}

// ── Transfers ──

/// Offset from the B-bus base of the `i`-th byte of a transfer.
pub open spec fn pattern_offset(mode: int, i: int) -> int {
    if mode == 1 || mode == 5 {
        i % 2
    } else if mode == 3 || mode == 7 {
        i % 4 / 2
    } else if mode == 4 {
        i % 4
    } else {
        0
    }
}

/// B-bus address of the `i`-th byte.
pub open spec fn b_address(c: DmaChannel, i: int) -> u16 {
    (0x2100 + c.bbad + pattern_offset(c.dmap as int % 8, i)) as u16
}

/// A-bus address after one byte: it stays, or steps within its bank.
pub open spec fn a_stepped(c: DmaChannel, a: u32) -> u32 {
    if c.dmap / 8 % 2 == 1 {
        a
    } else {
        let bank = a / 0x1_0000 % 0x100 * 0x1_0000;
        if c.dmap / 16 % 2 == 1 {
            (bank + (a % 0x1_0000 - 1) % 0x1_0000) as u32
        } else {
            (bank + (a % 0x1_0000 + 1) % 0x1_0000) as u32
        }
    }
}

/// Ports after one byte went between `a` and `b` in the channel's direction.
pub open spec fn byte_moved<P: DmaPorts>(s: P::State, c: DmaChannel, a: u32, b: u16) -> P::State {
    if c.dmap < 0x80 {
        P::after_b_write(P::after_a_read(s, a), b, P::a_value(s, a))
    } else {
        P::after_a_write(s, a, P::b_value(s, b))
    }
}

/// Ports and A-bus address after `n` bytes of a channel, starting at byte `i`.
pub open spec fn bytes_moved<P: DmaPorts>(
    s: P::State,
    c: DmaChannel,
    a: u32,
    i: int,
    n: nat,
) -> (P::State, u32)
    decreases n,
{
    if n == 0 {
        (s, a)
    } else {
        bytes_moved::<P>(
            byte_moved::<P>(s, c, a, b_address(c, i)),
            c,
            a_stepped(c, a),
            i + 1,
            (n - 1) as nat,
        )
    }
}

/// Number of bytes a channel will move.
pub open spec fn byte_count(c: DmaChannel) -> nat {
    if c.das == 0 {
        0x1_0000
    } else {
        c.das as nat
    }
}

/// State of a DMA run: the ports, the channels, and the cycles spent.
pub struct DmaRun<S> {
    pub ports: S,
    pub channels: Seq<DmaChannel>,
    pub cycles: int,
}

/// One enabled channel runs to its end: its address register keeps the
/// address after the last byte, its counter is zero, and each byte costs
/// eight cycles.
pub open spec fn channel_run<P: DmaPorts>(r: DmaRun<P::State>, ch: int) -> DmaRun<P::State> {
    let c = r.channels[ch];
    let (s, a) = bytes_moved::<P>(r.ports, c, c.a1t, 0, byte_count(c));
    DmaRun {
        ports: s,
        channels: r.channels.update(ch, DmaChannel { a1t: a, das: 0, ..c }),
        cycles: r.cycles + 8 * byte_count(c),
    }
}

pub open spec fn channel_enabled(enable: u8, ch: u8) -> bool {
    enable & (1u8 << ch) != 0
}

/// The first `n` channels, in order, as far as the mask enables them.
pub open spec fn channels_run<P: DmaPorts>(r: DmaRun<P::State>, enable: u8, n: nat) -> DmaRun<
    P::State,
>
    decreases n,
{
    if n == 0 {
        r
    } else {
        let before = channels_run::<P>(r, enable, (n - 1) as nat);
        if channel_enabled(enable, (n - 1) as u8) {
            channel_run::<P>(before, n - 1)
        } else {
            before
        }
    }
}

impl DmaChannel {
    /// A channel in its power-on state.
    pub fn new() -> (c: Self)
        ensures
            c == (DmaChannel {
                dmap: 0xFF,
                bbad: 0xFF,
                a1t: 0xFF_FFFF,
                das: 0xFFFF,
                dasb: 0xFF,
                a2a: 0xFFFF,
                ntrl: 0xFF,
                unused: 0xFF,
            }),
    {
        DmaChannel {
            dmap: 0xFF,
            bbad: 0xFF,
            a1t: 0xFF_FFFF,
            das: 0xFFFF,
            dasb: 0xFF,
            a2a: 0xFFFF,
            ntrl: 0xFF,
            unused: 0xFF,
        }
    }

    fn read_reg(&self, reg: u16) -> (v: u8)
        ensures
            v == channel_read(*self, reg as int),
    {
        match reg {
            0x0 => self.dmap,
            0x1 => self.bbad,
            0x2 => (self.a1t % 0x100) as u8,
            0x3 => (self.a1t / 0x100 % 0x100) as u8,
            0x4 => (self.a1t / 0x1_0000 % 0x100) as u8,
            0x5 => (self.das % 0x100) as u8,
            0x6 => (self.das / 0x100) as u8,
            0x7 => self.dasb,
            0x8 => (self.a2a % 0x100) as u8,
            0x9 => (self.a2a / 0x100) as u8,
            0xA => self.ntrl,
            0xB | 0xF => self.unused,
            _ => 0,
        }
    }

    fn write_reg(&mut self, reg: u16, val: u8)
        ensures
            *final(self) == channel_write(*old(self), reg as int, val),
    {
        match reg {
            0x0 => {
                self.dmap = val;
            },
            0x1 => {
                self.bbad = val;
            },
            0x2 => {
                self.a1t = self.a1t / 0x100 % 0x1_0000 * 0x100 + val as u32;
            },
            0x3 => {
                self.a1t = self.a1t / 0x1_0000 % 0x100 * 0x1_0000 + val as u32 * 0x100 + self.a1t
                    % 0x100;
            },
            0x4 => {
                self.a1t = val as u32 * 0x1_0000 + self.a1t % 0x1_0000;
            },
            0x5 => {
                self.das = self.das / 0x100 * 0x100 + val as u16;
            },
            0x6 => {
                self.das = val as u16 * 0x100 + self.das % 0x100;
            },
            0x7 => {
                self.dasb = val;
            },
            0x8 => {
                self.a2a = self.a2a / 0x100 * 0x100 + val as u16;
            },
            0x9 => {
                self.a2a = val as u16 * 0x100 + self.a2a % 0x100;
            },
            0xA => {
                self.ntrl = val;
            },
            0xB | 0xF => {
                self.unused = val;
            },
            _ => {},
        }
    }

    fn b_addr(&self, i: u32) -> (b: u16)
        ensures
            b == b_address(*self, i as int),
    {
        let mode: u8 = self.dmap % 8;
        let off: u16 = match mode {
            1 | 5 => (i % 2) as u16,
            3 | 7 => (i % 4 / 2) as u16,
            4 => (i % 4) as u16,
            _ => 0,
        };
        0x2100 + self.bbad as u16 + off
    }

    fn step_a(&self, a: u32) -> (r: u32)
        ensures
            r == a_stepped(*self, a),
    {
        if self.dmap / 8 % 2 == 1 {
            a
        } else {
            let bank: u32 = a / 0x1_0000 % 0x100 * 0x1_0000;
            let off: u32 = a % 0x1_0000;
            assert((off - 1) % 0x1_0000 == (off + 0xFFFF) % 0x1_0000);
            if self.dmap / 16 % 2 == 1 {
                bank + (off + 0xFFFF) % 0x1_0000
            } else {
                bank + (off + 1) % 0x1_0000
            }
        }
    }
}

/// The eight DMA channels.
pub struct DmaController {
    pub channels: [DmaChannel; 8],
}

impl Clone for DmaController {
    fn clone(&self) -> (r: Self)
        ensures
            r.channels@ == self.channels@,
    {
        DmaController { channels: self.channels }
    }
}

impl DmaController {
    /// All channels in their power-on state.
    pub fn new() -> (d: Self)
        ensures
            forall|i: int|
                0 <= i < 8 ==> d.channels@[i] == (DmaChannel {
                    dmap: 0xFF,
                    bbad: 0xFF,
                    a1t: 0xFF_FFFF,
                    das: 0xFFFF,
                    dasb: 0xFF,
                    a2a: 0xFFFF,
                    ntrl: 0xFF,
                    unused: 0xFF,
                }),
    {
        DmaController { channels: [DmaChannel::new();8] }
    }

    /// Read a register, addressed from $4300.
    pub fn read(&self, addr: u16) -> (v: u8)
        ensures
            v == dma_read(self.channels@, addr),
    {
        let ch: usize = (addr / 16 % 8) as usize;
        self.channels[ch].read_reg(addr % 16)
    }

    /// Write a register, addressed from $4300.
    pub fn write(&mut self, addr: u16, val: u8)
        ensures
            final(self).channels@ == dma_write(old(self).channels@, addr, val),
    {
        let ch: usize = (addr / 16 % 8) as usize;
        let mut c = self.channels[ch];
        c.write_reg(addr % 16, val);
        self.channels[ch] = c;
    }

    /// Run every channel that `enable` selects to its end. Returns the master
    /// cycles consumed.
    pub fn run_dma<P: DmaPorts>(&mut self, enable: u8, bus: &mut P) -> (cycles: u64)
        requires
            P::ports_valid(old(bus).ports()),
        ensures
            P::ports_valid(final(bus).ports()),
            (DmaRun { ports: final(bus).ports(), channels: final(self).channels@, cycles: cycles as int })
                == channels_run::<P>(
                DmaRun { ports: old(bus).ports(), channels: old(self).channels@, cycles: 0 },
                enable,
                8,
            ),
    {
        let ghost start: DmaRun<P::State> = DmaRun {
            ports: bus.ports(),
            channels: self.channels@,
            cycles: 0,
        };
        let mut total: u64 = 0;
        let mut ch: u8 = 0;
        while ch < 8
            invariant
                ch <= 8,
                P::ports_valid(bus.ports()),
                total <= 0x8_0000 * ch,
                (DmaRun { ports: bus.ports(), channels: self.channels@, cycles: total as int })
                    == channels_run::<P>(start, enable, ch as nat),
            decreases 8 - ch,
        {
            if enable & (1u8 << ch) != 0 {
                let spent: u64 = self.run_channel(ch as usize, bus);
                total = total + spent;
            }
            ch = ch + 1;
        }
        total
    }

    fn run_channel<P: DmaPorts>(&mut self, ch: usize, bus: &mut P) -> (spent: u64)
        requires
            ch < 8,
            P::ports_valid(old(bus).ports()),
        ensures
            P::ports_valid(final(bus).ports()),
            spent <= 0x8_0000,
            forall|n: int| #![trigger channel_run::<P>(DmaRun { ports: old(bus).ports(), channels: old(self).channels@, cycles: n }, ch as int)]
                (DmaRun { ports: final(bus).ports(), channels: final(self).channels@, cycles: n + spent })
                == channel_run::<P>(
                DmaRun { ports: old(bus).ports(), channels: old(self).channels@, cycles: n },
                ch as int,
            ),
    {
        let c = self.channels[ch];
        let count: u32 = if c.das == 0 {
            0x1_0000
        } else {
            c.das as u32
        };
        let mut a: u32 = c.a1t;
        let mut i: u32 = 0;
        let ghost s0 = bus.ports();
        while i < count
            invariant
                i <= count <= 0x1_0000,
                P::ports_valid(bus.ports()),
                bytes_moved::<P>(s0, c, c.a1t, 0, count as nat) == bytes_moved::<P>(
                    bus.ports(),
                    c,
                    a,
                    i as int,
                    (count - i) as nat,
                ),
            decreases count - i,
        {
            let b: u16 = c.b_addr(i);
            if c.dmap < 0x80 {
                let v: u8 = bus.a_read(a);
                bus.b_write(b, v);
            } else {
                let v: u8 = bus.b_read(b);
                bus.a_write(a, v);
            }
            a = c.step_a(a);
            i = i + 1;
        }
        self.channels[ch] = DmaChannel { a1t: a, das: 0, ..c };
        8 * (count as u64)
    }
}

/// Bytes of a number that is given by its bytes.
proof fn lemma_byte_fields(h: int, m: int, l: int)
    requires
        0 <= h,
        0 <= m < 0x100,
        0 <= l < 0x100,
    ensures
        (h * 0x100 + l) % 0x100 == l,
        (h * 0x100 + l) / 0x100 == h,
        (h * 0x1_0000 + m * 0x100 + l) / 0x100 % 0x100 == m,
{
    assert(h * 0x1_0000 + m * 0x100 + l == (h * 0x100 + m) * 0x100 + l);
}

proof fn lemma_channel_reads_back(c: DmaChannel, reg: int, val: u8)
    requires
        0 <= reg <= 0xB || reg == 0xF,
    ensures
        channel_read(channel_write(c, reg, val), reg) == val,
{
    let a = c.a1t as int;
    if reg == 2 {
        lemma_byte_fields(a / 0x100 % 0x1_0000, 0, val as int);
    } else if reg == 3 {
        lemma_byte_fields(a / 0x1_0000 % 0x100, val as int, a % 0x100);
    } else if reg == 4 {
        assert((val * 0x1_0000 + a % 0x1_0000) / 0x1_0000 == val);
    } else if reg == 5 {
        lemma_byte_fields(c.das as int / 0x100, 0, val as int);
    } else if reg == 6 {
        lemma_byte_fields(val as int, 0, c.das as int % 0x100);
    } else if reg == 8 {
        lemma_byte_fields(c.a2a as int / 0x100, 0, val as int);
    } else if reg == 9 {
        lemma_byte_fields(val as int, 0, c.a2a as int % 0x100);
    }
}

/// What is written to a register of a channel reads back, whichever channel
/// and register it is, except for the three register numbers without storage.
pub proof fn law_dma_register_reads_back(chans: Seq<DmaChannel>, addr: u16, val: u8)
    requires
        chans.len() == 8,
        !(0xC <= channel_reg(addr) <= 0xE),
    ensures
        dma_read(dma_write(chans, addr, val), addr) == val,
{
    lemma_channel_reads_back(chans[channel_index(addr)], channel_reg(addr), val);
}

/// A register write leaves every other channel alone.
pub proof fn law_dma_write_is_local(chans: Seq<DmaChannel>, addr: u16, val: u8, other: int)
    requires
        chans.len() == 8,
        0 <= other < 8,
        other != channel_index(addr),
    ensures
        dma_write(chans, addr, val)[other] == chans[other],
{
}

/// The register that a register number stands for: two numbers share one.
pub open spec fn stored_reg(reg: int) -> int {
    if reg == 0xF {
        0xB
    } else {
        reg
    }
}

/// The three bytes of an address are apart.
proof fn lemma_address_bytes(h: int, m: int, l: int)
    requires
        0 <= h < 0x100,
        0 <= m < 0x100,
        0 <= l < 0x100,
    ensures
        ({
            let v = h * 0x1_0000 + m * 0x100 + l;
            &&& 0 <= v <= 0xFF_FFFF
            &&& v % 0x100 == l
            &&& v / 0x100 % 0x100 == m
            &&& v / 0x1_0000 % 0x100 == h
        }),
{
}

/// What an address register becomes, by its three bytes.
proof fn lemma_address_written(c: DmaChannel, val: u8)
    ensures
        ({
            let a = c.a1t as int;
            let (h, m, l) = (a / 0x1_0000 % 0x100, a / 0x100 % 0x100, a % 0x100);
            &&& channel_write(c, 2, val).a1t == h * 0x1_0000 + m * 0x100 + val
            &&& channel_write(c, 3, val).a1t == h * 0x1_0000 + val * 0x100 + l
            &&& channel_write(c, 4, val).a1t == val * 0x1_0000 + m * 0x100 + l
        }),
{
    let a = c.a1t as int;
    let (h, m, l) = (a / 0x1_0000 % 0x100, a / 0x100 % 0x100, a % 0x100);
    assert(a / 0x100 % 0x1_0000 == h * 0x100 + m);
    assert(a % 0x1_0000 == m * 0x100 + l);
}

proof fn lemma_channel_write_is_local(c: DmaChannel, reg: int, val: u8, other: int)
    requires
        0 <= reg <= 0xF,
        0 <= other <= 0xF,
        stored_reg(reg) != stored_reg(other),
    ensures
        channel_read(channel_write(c, reg, val), other) == channel_read(c, other),
{
    if 2 <= reg <= 4 {
        let a = c.a1t as int;
        let (h, m, l) = (a / 0x1_0000 % 0x100, a / 0x100 % 0x100, a % 0x100);
        lemma_address_written(c, val);
        if reg == 2 {
            lemma_address_bytes(h, m, val as int);
        } else if reg == 3 {
            lemma_address_bytes(h, val as int, l);
        } else {
            lemma_address_bytes(val as int, m, l);
        }
    } else if reg == 5 {
        lemma_byte_fields(c.das as int / 0x100, 0, val as int);
    } else if reg == 6 {
        lemma_byte_fields(val as int, 0, c.das as int % 0x100);
    } else if reg == 8 {
        lemma_byte_fields(c.a2a as int / 0x100, 0, val as int);
    } else if reg == 9 {
        lemma_byte_fields(val as int, 0, c.a2a as int % 0x100);
    }
}

/// A register write leaves what every other register reads alone, in its own
/// channel and in the others.
pub proof fn law_dma_write_leaves_other_registers(
    chans: Seq<DmaChannel>,
    addr: u16,
    val: u8,
    other: u16,
)
    requires
        chans.len() == 8,
        channel_index(other) != channel_index(addr) || stored_reg(channel_reg(other))
            != stored_reg(channel_reg(addr)),
    ensures
        dma_read(dma_write(chans, addr, val), other) == dma_read(chans, other),
{
    if channel_index(other) == channel_index(addr) {
        lemma_channel_write_is_local(
            chans[channel_index(addr)],
            channel_reg(addr),
            val,
            channel_reg(other),
        );
    }
}

} // verus!
