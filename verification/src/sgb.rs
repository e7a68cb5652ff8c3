//! Super Game Boy command protocol, palettes, attributes, border and VRAM
//! transfers.
//!
//! Commands arrive through the P1 register (0xFF00), one bit per pulse: RESET
//! (0x00, then 0x30), 128 data bits, STOP (0x00), repeated for commands of
//! several packets.

use vstd::arithmetic::div_mod::{
    lemma_div_denominator, lemma_fundamental_div_mod, lemma_fundamental_div_mod_converse,
};
use vstd::prelude::*;

use crate::bytes::zeroed;

verus! {

/// Tiles of the Game Boy picture.
pub const ATTR_ROWS: usize = 18;
pub const ATTR_COLS: usize = 20;
/// Pixels of the Game Boy picture and of the border around it.
pub const GAME_PIXELS: usize = 23_040;
pub const BORDER_PIXELS: usize = 57_344;

#[derive(Clone, Copy, PartialEq, Eq, Structural)]
pub enum PacketState {
    Idle,
    /// Receiving the data bits of a packet.
    ReceivingBits,
}

/// State of the Super Game Boy.
pub struct Sgb {
    pub state: PacketState,
    /// Select lines last written to P1.
    pub last_p1: u8,
    /// Off while the boot ROM runs.
    pub protocol_active: bool,
    /// Bytes of the current command so far.
    pub packet_buf: Vec<u8>,
    /// Bits received of the current packet.
    pub bit_count: u16,
    pub current_byte: u8,
    pub expected_packets: u8,
    pub packets_received: u8,
    /// Relay every packet to the SNES as well.
    pub lle_mode: bool,
    pub pending_packets: Vec<[u8; 16]>,
    /// The four active palettes (RGB555).
    pub palettes: [[u16; 4]; 4],
    /// Palette number of each tile.
    pub attr_map: [[u8; 20]; 18],
    /// 512 palettes of four colors.
    pub sys_palettes: Vec<u16>,
    /// Attribute maps of 90 bytes, four tiles to the byte.
    pub attr_files: Vec<[u8; 90]>,
    /// 256 tiles of 32 bytes (4bpp planar).
    pub border_tiles: Vec<u8>,
    /// 32x28 tilemap entries.
    pub border_map: Vec<u16>,
    pub border_palettes: [[u16; 16]; 4],
    pub border_dirty: bool,
    /// 0 off, 1 freeze, 2 black, 3 color 0.
    pub mask_mode: u8,
    pub frozen_buffer: Vec<u32>,
    /// 1, 2 or 4.
    pub player_count: u8,
    pub current_player: u8,
    /// Command whose VRAM transfer is due.
    pub pending_transfer: Option<u8>,
    pub pending_transfer_data: u8,
    /// Frames until the transfer.
    pub transfer_countdown: u8,
}

pub type Grid = Seq<Seq<u8>>;

/// Mathematical state of the Super Game Boy.
#[verifier::ext_equal]
pub struct SgbView {
    pub state: PacketState,
    pub last_p1: u8,
    pub protocol_active: bool,
    pub buf: Seq<u8>,
    pub bit_count: int,
    pub current_byte: int,
    pub expected_packets: int,
    pub packets_received: int,
    pub lle_mode: bool,
    pub pending_packets: Seq<Seq<u8>>,
    pub palettes: Seq<Seq<u16>>,
    pub attr_map: Grid,
    pub sys_palettes: Seq<u16>,
    pub attr_files: Seq<Seq<u8>>,
    pub border_tiles: Seq<u8>,
    pub border_map: Seq<u16>,
    pub border_palettes: Seq<Seq<u16>>,
    pub border_dirty: bool,
    pub mask_mode: u8,
    pub frozen_buffer: Seq<u32>,
    pub player_count: u8,
    pub current_player: u8,
    pub pending_transfer: Option<u8>,
    pub pending_transfer_data: u8,
    pub transfer_countdown: u8,
}

impl View for Sgb {
    type V = SgbView;

    open spec fn view(&self) -> SgbView {
        SgbView {
            state: self.state,
            last_p1: self.last_p1,
            protocol_active: self.protocol_active,
            buf: self.packet_buf@,
            bit_count: self.bit_count as int,
            current_byte: self.current_byte as int,
            expected_packets: self.expected_packets as int,
            packets_received: self.packets_received as int,
            lle_mode: self.lle_mode,
            pending_packets: Seq::new(
                self.pending_packets@.len(),
                |i: int| self.pending_packets@[i]@,
            ),
            palettes: Seq::new(4, |i: int| self.palettes@[i]@),
            attr_map: Seq::new(18, |i: int| self.attr_map@[i]@),
            sys_palettes: self.sys_palettes@,
            attr_files: Seq::new(self.attr_files@.len(), |i: int| self.attr_files@[i]@),
            border_tiles: self.border_tiles@,
            border_map: self.border_map@,
            border_palettes: Seq::new(4, |i: int| self.border_palettes@[i]@),
            border_dirty: self.border_dirty,
            mask_mode: self.mask_mode,
            frozen_buffer: self.frozen_buffer@,
            player_count: self.player_count,
            current_player: self.current_player,
            pending_transfer: self.pending_transfer,
            pending_transfer_data: self.pending_transfer_data,
            transfer_countdown: self.transfer_countdown,
        }
    }
}

impl SgbView {
    /// Sizes, and the relations between the packet counters.
    pub open spec fn wf(self) -> bool {
        &&& self.packets_received == 0 || self.packets_received < self.expected_packets
        &&& self.expected_packets <= 7
        &&& 0 <= self.packets_received
        &&& self.buf.len() == 16 * self.packets_received + (if self.state
            == PacketState::ReceivingBits {
            self.bit_count / 8
        } else {
            0
        })
        &&& 0 <= self.bit_count <= 128
        &&& 0 <= self.current_byte < weight(self.bit_count % 8)
        &&& self.packets_received == 0 && self.state == PacketState::Idle ==> self.buf.len() == 0
        &&& self.last_p1 == 0x00 || self.last_p1 == 0x10 || self.last_p1 == 0x20 || self.last_p1
            == 0x30
        &&& self.sizes_wf()
        &&& self.attr_wf()
        &&& self.player_count <= 16
        &&& self.current_player < 16
    }

    pub open spec fn sizes_wf(self) -> bool {
        &&& self.palettes.len() == 4
        &&& forall|i: int| 0 <= i < 4 ==> (#[trigger] self.palettes[i]).len() == 4
        &&& self.sys_palettes.len() == 2048
        &&& self.attr_files.len() == 45
        &&& forall|i: int| 0 <= i < 45 ==> (#[trigger] self.attr_files[i]).len() == 90
        &&& self.border_map.len() >= 896
        &&& self.border_palettes.len() == 4
        &&& forall|i: int| 0 <= i < 4 ==> (#[trigger] self.border_palettes[i]).len() == 16
    }

    pub open spec fn attr_wf(self) -> bool {
        grid_wf(self.attr_map)
    }

    /// Every tile names one of the four palettes, and the current player is one
    /// of one, two or four.
    pub open spec fn in_range(self) -> bool {
        &&& grid_in_range(self.attr_map)
        &&& self.player_count == 1 || self.player_count == 2 || self.player_count == 4
        &&& self.current_player < self.player_count
    }
}

/// A map of 18 rows of 20 tiles.
pub open spec fn grid_wf(g: Grid) -> bool {
    &&& g.len() == 18
    &&& forall|y: int| 0 <= y < 18 ==> (#[trigger] g[y]).len() == 20
}

pub open spec fn grid_in_range(g: Grid) -> bool {
    forall|y: int, x: int| 0 <= y < 18 && 0 <= x < 20 ==> #[trigger] g[y][x] < 4
}

/// Value of bit `k` of a byte.
pub open spec fn weight(k: int) -> int {
    if k <= 0 {
        1
    } else if k == 1 {
        2
    } else if k == 2 {
        4
    } else if k == 3 {
        8
    } else if k == 4 {
        16
    } else if k == 5 {
        32
    } else if k == 6 {
        64
    } else {
        128
    }
}

/// Bit `k` of a byte.
pub open spec fn bit_of(b: u8, k: int) -> int {
    b as int / weight(k) % 2
}

/// Two-bit field `i` of a packed byte, counted from the top.
pub open spec fn pair_of(b: u8, i: int) -> u8 {
    if i == 0 {
        (b / 64) as u8
    } else if i == 1 {
        (b / 16 % 4) as u8
    } else if i == 2 {
        (b / 4 % 4) as u8
    } else {
        (b % 4) as u8
    }
}

// ── Palette commands ──

/// Color at a byte offset of a command; missing bytes give 0.
pub open spec fn command_color(buf: Seq<u8>, off: int) -> u16 {
    if off + 1 < buf.len() {
        (buf[off] + 0x100 * buf[off + 1]) as u16
    } else {
        0
    }
}

/// Palettes after a command that sets the colors of palettes `a` and `b`. The
/// first color is shared by all four.
pub open spec fn palette_pair_set(pals: Seq<Seq<u16>>, buf: Seq<u8>, a: int, b: int) -> Seq<
    Seq<u16>,
> {
    let c0 = command_color(buf, 1);
    Seq::new(
        4,
        |p: int|
            if p == a {
                seq![c0, command_color(buf, 3), command_color(buf, 5), command_color(buf, 7)]
            } else if p == b {
                seq![c0, command_color(buf, 9), command_color(buf, 11), command_color(buf, 13)]
            } else {
                pals[p].update(0, c0)
            },
    )
}

/// System palette that entry `i` of a PAL_SET command selects.
pub open spec fn selected_palette(buf: Seq<u8>, i: int) -> int {
    (buf[1 + 2 * i] + 0x100 * buf[2 + 2 * i]) % 512
}

/// Palettes after PAL_SET: the selected system palettes, all with the first
/// color of palette 0.
pub open spec fn palettes_selected(sys: Seq<u16>, buf: Seq<u8>) -> Seq<Seq<u16>> {
    Seq::new(
        4,
        |p: int|
            Seq::new(
                4,
                |c: int|
                    if c == 0 {
                        sys[4 * selected_palette(buf, 0)]
                    } else {
                        sys[4 * selected_palette(buf, p) + c]
                    },
            ),
    )
}

// ── Attribute commands ──

/// A map given by its tiles.
pub open spec fn grid(f: spec_fn(int, int) -> u8) -> Grid {
    Seq::new(18, |y: int| Seq::new(20, |x: int| f(y, x)))
}

/// A tile after one rectangle of ATTR_BLK at `base`: the rectangle, its edge
/// and its outside are set separately; when only the inside or only the
/// outside is set, the edge goes with it.
pub open spec fn block_tile(buf: Seq<u8>, base: int, old_pal: u8, y: int, x: int) -> u8 {
    let ctrl = buf[base] as int;
    let inside = ctrl % 2 == 1;
    let edge = ctrl / 2 % 2 == 1;
    let outside = ctrl / 4 % 2 == 1;
    let data = buf[base + 1];
    let x1 = buf[base + 2] as int % 32;
    let y1 = buf[base + 3] as int % 32;
    let x2 = buf[base + 4] as int % 32;
    let y2 = buf[base + 5] as int % 32;
    if x < x1 || x > x2 || y < y1 || y > y2 {
        if outside {
            pair_of(data, 1)
        } else {
            old_pal
        }
    } else if x1 < x < x2 && y1 < y < y2 {
        if inside {
            pair_of(data, 3)
        } else {
            old_pal
        }
    } else if edge {
        pair_of(data, 2)
    } else if inside && !outside {
        pair_of(data, 3)
    } else if outside && !inside {
        pair_of(data, 1)
    } else {
        old_pal
    }
}

/// The map after the first `n` rectangles of ATTR_BLK.
pub open spec fn blocks_applied(g: Grid, buf: Seq<u8>, n: nat) -> Grid
    decreases n,
{
    if n == 0 {
        g
    } else {
        let before = blocks_applied(g, buf, (n - 1) as nat);
        grid(|y: int, x: int| block_tile(buf, 2 + 6 * (n - 1), before[y][x], y, x))
    }
}

/// Rectangles of an ATTR_BLK command that its bytes hold completely.
pub open spec fn block_count(buf: Seq<u8>) -> nat {
    let whole = (buf.len() - 2) / 6;
    if buf[1] < whole {
        buf[1] as nat
    } else {
        whole as nat
    }
}

/// A tile after one line of ATTR_LIN.
pub open spec fn line_tile(data: u8, old_pal: u8, y: int, x: int) -> u8 {
    let coord = if data >= 0x80 {
        y
    } else {
        x
    };
    if coord == data % 32 {
        (data / 32 % 4) as u8
    } else {
        old_pal
    }
}

/// The map after the first `n` lines of ATTR_LIN.
pub open spec fn lines_applied(g: Grid, buf: Seq<u8>, n: nat) -> Grid
    decreases n,
{
    if n == 0 {
        g
    } else {
        let before = lines_applied(g, buf, (n - 1) as nat);
        grid(|y: int, x: int| line_tile(buf[(n + 1) as int], before[y][x], y, x))
    }
}

pub open spec fn line_count(buf: Seq<u8>) -> nat {
    if buf[1] < buf.len() - 2 {
        buf[1] as nat
    } else {
        (buf.len() - 2) as nat
    }
}

/// The map after ATTR_DIV: one palette on each side of a line and one on it.
pub open spec fn divided(buf: Seq<u8>) -> Grid {
    let data = buf[1];
    let line = buf[2] as int % 32;
    grid(
        |y: int, x: int|
            {
                let coord = if data / 64 % 2 == 1 {
                    y
                } else {
                    x
                };
                if coord < line {
                    pair_of(data, 2)
                } else if coord == line {
                    pair_of(data, 1)
                } else {
                    pair_of(data, 3)
                }
            },
    )
}

/// Position after a tile of ATTR_CHR, row by row or column by column.
pub open spec fn next_tile(y: int, x: int, horizontal: bool) -> (int, int) {
    if horizontal {
        if x + 1 >= 20 {
            (y + 1, 0)
        } else {
            (y, x + 1)
        }
    } else if y + 1 >= 18 {
        (0, x + 1)
    } else {
        (y + 1, x)
    }
}

/// The map after ATTR_CHR from its tile `i` on, with `n` tiles to go; it ends
/// early when the position leaves the map or the bytes run out.
pub open spec fn tiles_applied(
    g: Grid,
    buf: Seq<u8>,
    y: int,
    x: int,
    i: int,
    n: nat,
    horizontal: bool,
) -> Grid
    decreases n,
{
    if n == 0 || y >= 18 || x >= 20 || 6 + i / 4 >= buf.len() {
        g
    } else {
        let (y1, x1) = next_tile(y, x, horizontal);
        tiles_applied(
            g.update(y, g[y].update(x, pair_of(buf[6 + i / 4], i % 4))),
            buf,
            y1,
            x1,
            i + 1,
            (n - 1) as nat,
            horizontal,
        )
    }
}

/// The map that an attribute file holds.
pub open spec fn file_grid(file: Seq<u8>) -> Grid {
    grid(|y: int, x: int| pair_of(file[(20 * y + x) / 4], (20 * y + x) % 4))
}

/// The map after applying attribute file `i`; there are 45.
pub open spec fn file_applied(v: SgbView, i: int) -> SgbView {
    if i < 45 {
        SgbView { attr_map: file_grid(v.attr_files[i]), ..v }
    } else {
        v
    }
}

// ── Commands ──

/// A VRAM transfer is due in two frames.
pub open spec fn transfer_requested(v: SgbView, command: u8, data: u8) -> SgbView {
    SgbView {
        pending_transfer: Some(command),
        pending_transfer_data: data,
        transfer_countdown: 2,
        ..v
    }
}

pub open spec fn unmasked_if(v: SgbView, cancel: bool) -> SgbView {
    if cancel {
        SgbView { mask_mode: 0, ..v }
    } else {
        v
    }
}

/// Number of players that MLT_REQ asks for.
pub open spec fn players_requested(b: u8) -> u8 {
    let n = b % 4;
    if n == 1 {
        2
    } else if n == 3 {
        4
    } else {
        1
    }
}

/// Effect of a complete command. Commands that concern only the SNES side are
/// ignored, as are invalid ones.
#[verifier::opaque]
pub open spec fn command_executed(v: SgbView) -> SgbView {
    let buf = v.buf;
    let cmd = buf[0] as int / 8;
    if cmd == 0x00 {
        SgbView { palettes: palette_pair_set(v.palettes, buf, 0, 1), ..v }
    } else if cmd == 0x01 {
        SgbView { palettes: palette_pair_set(v.palettes, buf, 2, 3), ..v }
    } else if cmd == 0x02 {
        SgbView { palettes: palette_pair_set(v.palettes, buf, 0, 3), ..v }
    } else if cmd == 0x03 {
        SgbView { palettes: palette_pair_set(v.palettes, buf, 1, 2), ..v }
    } else if cmd == 0x04 {
        SgbView { attr_map: blocks_applied(v.attr_map, buf, block_count(buf)), ..v }
    } else if cmd == 0x05 {
        SgbView { attr_map: lines_applied(v.attr_map, buf, line_count(buf)), ..v }
    } else if cmd == 0x06 {
        SgbView { attr_map: divided(buf), ..v }
    } else if cmd == 0x07 {
        SgbView {
            attr_map: tiles_applied(
                v.attr_map,
                buf,
                buf[2] as int,
                buf[1] as int,
                0,
                (buf[3] + 0x100 * buf[4]) as nat,
                buf[5] % 2 == 0,
            ),
            ..v
        }
    } else if cmd == 0x0A {
        let v1 = SgbView { palettes: palettes_selected(v.sys_palettes, buf), ..v };
        let v2 = if buf[9] >= 0x80 {
            file_applied(v1, buf[9] as int % 64)
        } else {
            v1
        };
        unmasked_if(v2, buf[9] / 64 % 2 == 1)
    } else if cmd == 0x0B {
        transfer_requested(v, 0x0B, 0)
    } else if cmd == 0x11 {
        SgbView { player_count: players_requested(buf[1]), current_player: 0, ..v }
    } else if cmd == 0x13 {
        transfer_requested(v, 0x13, (buf[1] % 2) as u8)
    } else if cmd == 0x14 {
        transfer_requested(v, 0x14, 0)
    } else if cmd == 0x15 {
        transfer_requested(v, 0x15, 0)
    } else if cmd == 0x16 {
        unmasked_if(file_applied(v, buf[1] as int % 64), buf[1] / 64 % 2 == 1)
    } else if cmd == 0x17 {
        SgbView { mask_mode: (buf[1] % 4) as u8, ..v }
    } else {
        v
    }
}

// ── Packet protocol ──

/// The command bytes padded with zeros to a whole number of packets.
pub open spec fn padded(buf: Seq<u8>, n: int) -> Seq<u8> {
    Seq::new(
        n as nat,
        |i: int|
            if i < buf.len() {
                buf[i]
            } else {
                0
            },
    )
}

/// Packets of a command, from its first byte.
pub open spec fn packets_of(header: u8) -> int {
    if header % 8 == 0 {
        1
    } else {
        header as int % 8
    }
}

/// A packet is complete and counted, and relayed in LLE mode.
pub open spec fn packet_completed(v: SgbView) -> SgbView {
    let n = v.packets_received + 1;
    let buf = padded(v.buf, 16 * n);
    SgbView {
        buf,
        packets_received: n,
        expected_packets: if n == 1 {
            packets_of(buf[0])
        } else {
            v.expected_packets
        },
        pending_packets: if v.lle_mode {
            v.pending_packets.push(buf.subrange(16 * n - 16, 16 * n))
        } else {
            v.pending_packets
        },
        state: PacketState::Idle,
        ..v
    }
}

/// A packet is complete. The last packet of a command executes it.
pub open spec fn packet_finished(v: SgbView) -> SgbView {
    let v1 = packet_completed(v);
    if v1.packets_received >= v1.expected_packets {
        SgbView {
            packets_received: 0,
            expected_packets: 0,
            buf: Seq::<u8>::empty(),
            ..command_executed(v1)
        }
    } else {
        v1
    }
}

/// A data bit, least significant first.
pub open spec fn bit_received(v: SgbView, bit: int) -> SgbView {
    let byte = v.current_byte + if bit == 1 {
        weight(v.bit_count % 8)
    } else {
        0
    };
    if v.bit_count % 8 == 7 {
        SgbView { buf: v.buf.push(byte as u8), current_byte: 0, bit_count: v.bit_count + 1, ..v }
    } else {
        SgbView { current_byte: byte, bit_count: v.bit_count + 1, ..v }
    }
}

/// The select lines in a written value.
pub open spec fn select_lines(val: u8) -> u8 {
    (val / 16 % 4 * 16) as u8
}

/// With several players, raising line P15 outside a packet selects the next.
pub open spec fn player_cycled(v: SgbView, p1: u8) -> SgbView {
    if v.player_count > 1 && v.state == PacketState::Idle && v.last_p1 < 0x20 && p1 >= 0x20 {
        SgbView { current_player: ((v.current_player + 1) % (v.player_count as int)) as u8, ..v }
    } else {
        v
    }
}

/// A write to P1.
pub open spec fn p1_written(v: SgbView, val: u8) -> SgbView {
    let p1 = select_lines(val);
    let old_p1 = v.last_p1;
    let v1 = SgbView { last_p1: p1, ..player_cycled(v, p1) };
    if !v.protocol_active {
        SgbView { last_p1: p1, ..v }
    } else if v.state == PacketState::Idle {
        if old_p1 == 0x00 && p1 == 0x30 {
            SgbView {
                state: PacketState::ReceivingBits,
                bit_count: 0,
                current_byte: 0,
                buf: if v.packets_received == 0 {
                    Seq::<u8>::empty()
                } else {
                    v.buf
                },
                ..v1
            }
        } else {
            v1
        }
    } else if p1 == 0x00 {
        packet_finished(v1)
    } else if old_p1 == 0x30 && (p1 == 0x10 || p1 == 0x20) {
        if v.bit_count < 128 {
            bit_received(
                v1,
                if p1 == 0x10 {
                    1
                } else {
                    0
                },
            )
        } else {
            packet_finished(v1)
        }
    } else {
        v1
    }
}

// ── Implementation ──

fn exec_weight(k: u16) -> (w: u8)
    requires
        k < 8,
    ensures
        w == weight(k as int),
{
    match k {
        0 => 1,
        1 => 2,
        2 => 4,
        3 => 8,
        4 => 16,
        5 => 32,
        6 => 64,
        _ => 128,
    }
}

fn exec_pair(b: u8, i: usize) -> (r: u8)
    requires
        i < 4,
    ensures
        r == pair_of(b, i as int),
        r < 4,
{
    match i {
        0 => b / 64,
        1 => b / 16 % 4,
        2 => b / 4 % 4,
        _ => b % 4,
    }
}

pub open spec fn sgb_initial() -> SgbView {
    SgbView {
        state: PacketState::Idle,
        last_p1: 0x30,
        protocol_active: false,
        buf: Seq::empty(),
        bit_count: 0,
        current_byte: 0,
        expected_packets: 0,
        packets_received: 0,
        lle_mode: false,
        pending_packets: Seq::empty(),
        palettes: Seq::new(4, |i: int| seq![0x7FFFu16, 0x56B5u16, 0x294Au16, 0x0000u16]),
        attr_map: grid(|y: int, x: int| 0u8),
        sys_palettes: Seq::new(2048, |i: int| 0u16),
        attr_files: Seq::new(45, |i: int| Seq::new(90, |j: int| 0u8)),
        border_tiles: Seq::new(8192, |i: int| 0u8),
        border_map: Seq::new(896, |i: int| 0u16),
        border_palettes: Seq::new(4, |i: int| Seq::new(16, |j: int| 0u16)),
        border_dirty: false,
        mask_mode: 0,
        frozen_buffer: Seq::new(GAME_PIXELS as nat, |i: int| 0u32),
        player_count: 1,
        current_player: 0,
        pending_transfer: None,
        pending_transfer_data: 0,
        transfer_countdown: 0,
    }
}

fn zero_words(n: usize) -> (v: Vec<u16>)
    ensures
        v@ == Seq::new(n as nat, |i: int| 0u16),
{
    let mut v: Vec<u16> = Vec::new();
    while v.len() < n
        invariant
            v.len() <= n,
            forall|i: int| 0 <= i < v.len() ==> v@[i] == 0,
        decreases n - v.len(),
    {
        v.push(0);
    }
    assert(v@ =~= Seq::new(n as nat, |i: int| 0u16));
    v
}

impl Sgb {
    /// State before the boot ROM: the protocol is not active yet.
    pub fn new() -> (s: Self)
        ensures
            s@ == sgb_initial(),
            s@.wf(),
    {
        let mut attr_files: Vec<[u8; 90]> = Vec::new();
        while attr_files.len() < 45
            invariant
                attr_files.len() <= 45,
                forall|i: int, j: int|
                    0 <= i < attr_files.len() && 0 <= j < 90 ==> #[trigger] attr_files@[i]@[j] == 0,
            decreases 45 - attr_files.len(),
        {
            attr_files.push([0u8;90]);
        }
        let mut frozen_buffer: Vec<u32> = Vec::new();
        while frozen_buffer.len() < GAME_PIXELS
            invariant
                frozen_buffer.len() <= GAME_PIXELS,
                forall|i: int| 0 <= i < frozen_buffer.len() ==> frozen_buffer@[i] == 0,
            decreases GAME_PIXELS - frozen_buffer.len(),
        {
            frozen_buffer.push(0);
        }
        let s = Sgb {
            state: PacketState::Idle,
            last_p1: 0x30,
            protocol_active: false,
            packet_buf: Vec::new(),
            bit_count: 0,
            current_byte: 0,
            expected_packets: 0,
            packets_received: 0,
            lle_mode: false,
            pending_packets: Vec::new(),
            palettes: [[0x7FFF, 0x56B5, 0x294A, 0x0000];4],
            attr_map: [[0u8;20];18],
            sys_palettes: zero_words(2048),
            attr_files,
            border_tiles: zeroed(8192),
            border_map: zero_words(896),
            border_palettes: [[0u16;16];4],
            border_dirty: false,
            mask_mode: 0,
            frozen_buffer,
            player_count: 1,
            current_player: 0,
            pending_transfer: None,
            pending_transfer_data: 0,
            transfer_countdown: 0,
        };
        assert(s@ =~~= sgb_initial());
        s
    }

    // ── Palette commands ──

    fn read_color(&self, off: usize) -> (c: u16)
        requires
            off < 100,
        ensures
            c == command_color(self@.buf, off as int),
    {
        if off + 1 < self.packet_buf.len() {
            self.packet_buf[off] as u16 + 0x100 * (self.packet_buf[off + 1] as u16)
        } else {
            0
        }
    }

    /// PAL01, PAL23, PAL03 and PAL12: set two palettes.
    fn cmd_palette_pair(&mut self, a: usize, b: usize)
        requires
            a < 4,
            b < 4,
            a != b,
        ensures
            final(self)@ == (SgbView {
                palettes: palette_pair_set(old(self)@.palettes, old(self)@.buf, a as int, b as int),
                ..old(self)@
            }),
    {
        let c0: u16 = self.read_color(1);
        let first: [u16; 4] = [c0, self.read_color(3), self.read_color(5), self.read_color(7)];
        let second: [u16; 4] = [c0, self.read_color(9), self.read_color(11), self.read_color(13)];
        let ghost before = self@;
        self.palettes[0][0] = c0;
        self.palettes[1][0] = c0;
        self.palettes[2][0] = c0;
        self.palettes[3][0] = c0;
        self.palettes[a] = first;
        self.palettes[b] = second;
        assert(self@.palettes =~~= palette_pair_set(before.palettes, before.buf, a as int, b as int));
    }

    // ── Attribute commands ──

    /// One tile after a rectangle of ATTR_BLK.
    fn block_tile_at(&self, base: usize, old_pal: u8, y: usize, x: usize) -> (r: u8)
        requires
            base + 5 < self.packet_buf@.len(),
        ensures
            r == block_tile(self@.buf, base as int, old_pal, y as int, x as int),
    {
        let _len: usize = self.packet_buf.len();
        let ctrl: u8 = self.packet_buf[base];
        let data: u8 = self.packet_buf[base + 1];
        let inside: bool = ctrl % 2 == 1;
        let edge: bool = ctrl / 2 % 2 == 1;
        let outside: bool = ctrl / 4 % 2 == 1;
        let x1: usize = self.packet_buf[base + 2] as usize % 32;
        let y1: usize = self.packet_buf[base + 3] as usize % 32;
        let x2: usize = self.packet_buf[base + 4] as usize % 32;
        let y2: usize = self.packet_buf[base + 5] as usize % 32;
        if x < x1 || x > x2 || y < y1 || y > y2 {
            if outside {
                exec_pair(data, 1)
            } else {
                old_pal
            }
        } else if x > x1 && x < x2 && y > y1 && y < y2 {
            if inside {
                exec_pair(data, 3)
            } else {
                old_pal
            }
        } else if edge {
            exec_pair(data, 2)
        } else if inside && !outside {
            exec_pair(data, 3)
        } else if outside && !inside {
            exec_pair(data, 1)
        } else {
            old_pal
        }
    }

    /// One tile after a line of ATTR_LIN.
    fn line_tile_at(data: u8, old_pal: u8, y: usize, x: usize) -> (r: u8)
        ensures
            r == line_tile(data, old_pal, y as int, x as int),
    {
        let coord: usize = if data >= 0x80 {
            y
        } else {
            x
        };
        if coord == (data % 32) as usize {
            data / 32 % 4
        } else {
            old_pal
        }
    }

    /// ATTR_BLK: set the attributes of rectangles.
    fn cmd_attr_blk(&mut self)
        requires
            old(self)@.buf.len() >= 16,
            old(self)@.attr_wf(),
        ensures
            final(self)@ == (SgbView {
                attr_map: blocks_applied(
                    old(self)@.attr_map,
                    old(self)@.buf,
                    block_count(old(self)@.buf),
                ),
                ..old(self)@
            }),
            final(self)@.attr_wf(),
    {
        let ghost before = self@;
        let whole: usize = (self.packet_buf.len() - 2) / 6;
        let count: usize = if (self.packet_buf[1] as usize) < whole {
            self.packet_buf[1] as usize
        } else {
            whole
        };
        let mut i: usize = 0;
        while i < count
            invariant
                i <= count,
                count == block_count(before.buf),
                count <= (before.buf.len() - 2) / 6,
                16 <= before.buf.len() <= usize::MAX,
                self@.attr_wf(),
                self@ == (SgbView {
                    attr_map: blocks_applied(before.attr_map, before.buf, i as nat),
                    ..before
                }),
            decreases count - i,
        {
            let ghost g0 = self@.attr_map;
            let mut y: usize = 0;
            while y < 18
                invariant
                    y <= 18,
                    i < count,
                    count <= (before.buf.len() - 2) / 6,
                    16 <= before.buf.len() <= usize::MAX,
                    grid_wf(g0),
                    self@ == (SgbView { attr_map: self@.attr_map, ..before }),
                    grid_wf(self@.attr_map),
                    forall|b: int, a: int|
                        0 <= b < 18 && 0 <= a < 20 ==> #[trigger] self@.attr_map[b][a] == (if b < y {
                            block_tile(before.buf, 2 + 6 * i, g0[b][a], b, a)
                        } else {
                            g0[b][a]
                        }),
                decreases 18 - y,
            {
                let mut x: usize = 0;
                while x < 20
                    invariant
                        x <= 20,
                        y < 18,
                        i < count,
                        count <= (before.buf.len() - 2) / 6,
                        16 <= before.buf.len() <= usize::MAX,
                        grid_wf(g0),
                        self@ == (SgbView { attr_map: self@.attr_map, ..before }),
                        grid_wf(self@.attr_map),
                        forall|b: int, a: int|
                            0 <= b < 18 && 0 <= a < 20 ==> #[trigger] self@.attr_map[b][a] == (if b
                                < y || (b == y && a < x) {
                                block_tile(before.buf, 2 + 6 * i, g0[b][a], b, a)
                            } else {
                                g0[b][a]
                            }),
                    decreases 20 - x,
                {
                    assert(self@.attr_map[y as int][x as int] == g0[y as int][x as int]);
                    let pal: u8 = self.block_tile_at(2 + 6 * i, self.attr_map[y][x], y, x);
                    self.set_attr(y, x, pal);
                    x = x + 1;
                }
                y = y + 1;
            }
            i = i + 1;
            assert(self@.attr_map =~~= blocks_applied(before.attr_map, before.buf, i as nat));
        }
    }

    fn set_attr(&mut self, y: usize, x: usize, pal: u8)
        requires
            y < 18,
            x < 20,
            old(self)@.attr_wf(),
        ensures
            final(self)@ == (SgbView {
                attr_map: old(self)@.attr_map.update(
                    y as int,
                    old(self)@.attr_map[y as int].update(x as int, pal),
                ),
                ..old(self)@
            }),
            final(self)@.attr_wf(),
    {
        let ghost before = self@;
        self.attr_map[y][x] = pal;
        assert(self@.attr_map =~~= before.attr_map.update(
            y as int,
            before.attr_map[y as int].update(x as int, pal),
        ));
    }

    /// ATTR_LIN: set the attributes of rows and columns.
    fn cmd_attr_lin(&mut self)
        requires
            old(self)@.buf.len() >= 16,
            old(self)@.attr_wf(),
        ensures
            final(self)@ == (SgbView {
                attr_map: lines_applied(
                    old(self)@.attr_map,
                    old(self)@.buf,
                    line_count(old(self)@.buf),
                ),
                ..old(self)@
            }),
            final(self)@.attr_wf(),
    {
        let ghost before = self@;
        let whole: usize = self.packet_buf.len() - 2;
        let count: usize = if (self.packet_buf[1] as usize) < whole {
            self.packet_buf[1] as usize
        } else {
            whole
        };
        let mut i: usize = 0;
        while i < count
            invariant
                i <= count,
                count == line_count(before.buf),
                count <= before.buf.len() - 2,
                self@.attr_wf(),
                self@ == (SgbView {
                    attr_map: lines_applied(before.attr_map, before.buf, i as nat),
                    ..before
                }),
            decreases count - i,
        {
            let ghost g0 = self@.attr_map;
            let data: u8 = self.packet_buf[2 + i];
            let mut y: usize = 0;
            while y < 18
                invariant
                    y <= 18,
                    grid_wf(g0),
                    self@ == (SgbView { attr_map: self@.attr_map, ..before }),
                    grid_wf(self@.attr_map),
                    forall|b: int, a: int|
                        0 <= b < 18 && 0 <= a < 20 ==> #[trigger] self@.attr_map[b][a] == (if b < y {
                            line_tile(data, g0[b][a], b, a)
                        } else {
                            g0[b][a]
                        }),
                decreases 18 - y,
            {
                let mut x: usize = 0;
                while x < 20
                    invariant
                        x <= 20,
                        y < 18,
                        grid_wf(g0),
                        self@ == (SgbView { attr_map: self@.attr_map, ..before }),
                        grid_wf(self@.attr_map),
                        forall|b: int, a: int|
                            0 <= b < 18 && 0 <= a < 20 ==> #[trigger] self@.attr_map[b][a] == (if b
                                < y || (b == y && a < x) {
                                line_tile(data, g0[b][a], b, a)
                            } else {
                                g0[b][a]
                            }),
                    decreases 20 - x,
                {
                    assert(self@.attr_map[y as int][x as int] == g0[y as int][x as int]);
                    let pal: u8 = Self::line_tile_at(data, self.attr_map[y][x], y, x);
                    self.set_attr(y, x, pal);
                    x = x + 1;
                }
                y = y + 1;
            }
            i = i + 1;
            assert(self@.attr_map =~~= lines_applied(before.attr_map, before.buf, i as nat));
        }
    }

    /// ATTR_DIV: divide the picture along a line.
    fn cmd_attr_div(&mut self)
        requires
            old(self)@.buf.len() >= 16,
            old(self)@.attr_wf(),
        ensures
            final(self)@ == (SgbView { attr_map: divided(old(self)@.buf), ..old(self)@ }),
            final(self)@.attr_wf(),
    {
        let ghost before = self@;
        let data: u8 = self.packet_buf[1];
        let line: usize = self.packet_buf[2] as usize % 32;
        let by_row: bool = data / 64 % 2 == 1;
        let mut y: usize = 0;
        while y < 18
            invariant
                y <= 18,
                before.buf.len() >= 16,
                data == before.buf[1],
                line == before.buf[2] % 32,
                by_row == (data / 64 % 2 == 1),
                self@ == (SgbView { attr_map: self@.attr_map, ..before }),
                grid_wf(self@.attr_map),
                forall|b: int, a: int|
                    0 <= b < y && 0 <= a < 20 ==> #[trigger] self@.attr_map[b][a] == divided(
                        before.buf,
                    )[b][a],
            decreases 18 - y,
        {
            let mut x: usize = 0;
            while x < 20
                invariant
                    x <= 20,
                    y < 18,
                    before.buf.len() >= 16,
                    data == before.buf[1],
                    line == before.buf[2] % 32,
                    by_row == (data / 64 % 2 == 1),
                    self@ == (SgbView { attr_map: self@.attr_map, ..before }),
                    grid_wf(self@.attr_map),
                    forall|b: int, a: int|
                        0 <= b < 18 && 0 <= a < 20 && (b < y || (b == y && a < x))
                            ==> #[trigger] self@.attr_map[b][a] == divided(before.buf)[b][a],
                decreases 20 - x,
            {
                let coord: usize = if by_row {
                    y
                } else {
                    x
                };
                let pal: u8 = if coord < line {
                    exec_pair(data, 2)
                } else if coord == line {
                    exec_pair(data, 1)
                } else {
                    exec_pair(data, 3)
                };
                self.set_attr(y, x, pal);
                x = x + 1;
            }
            y = y + 1;
        }
        assert(self@.attr_map =~~= divided(before.buf));
    }

    /// ATTR_CHR: set the attributes of consecutive tiles.
    fn cmd_attr_chr(&mut self)
        requires
            old(self)@.buf.len() >= 16,
            old(self)@.attr_wf(),
        ensures
            final(self)@ == (SgbView {
                attr_map: tiles_applied(
                    old(self)@.attr_map,
                    old(self)@.buf,
                    old(self)@.buf[2] as int,
                    old(self)@.buf[1] as int,
                    0,
                    (old(self)@.buf[3] + 0x100 * old(self)@.buf[4]) as nat,
                    old(self)@.buf[5] % 2 == 0,
                ),
                ..old(self)@
            }),
            final(self)@.attr_wf(),
    {
        let ghost before = self@;
        let mut x: usize = self.packet_buf[1] as usize;
        let mut y: usize = self.packet_buf[2] as usize;
        let count: usize = self.packet_buf[3] as usize + 0x100 * (self.packet_buf[4] as usize);
        let horizontal: bool = self.packet_buf[5] % 2 == 0;
        let ghost goal = tiles_applied(
            before.attr_map,
            before.buf,
            y as int,
            x as int,
            0,
            count as nat,
            horizontal,
        );
        let mut i: usize = 0;
        while i < count && y < 18 && x < 20 && 6 + i / 4 < self.packet_buf.len()
            invariant
                i <= count <= 0xFFFF,
                y <= 0x100,
                x <= 0x100,
                self@ == (SgbView { attr_map: self@.attr_map, ..before }),
                self@.attr_wf(),
                goal == tiles_applied(
                    self@.attr_map,
                    before.buf,
                    y as int,
                    x as int,
                    i as int,
                    (count - i) as nat,
                    horizontal,
                ),
            decreases count - i,
        {
            let pal: u8 = exec_pair(self.packet_buf[6 + i / 4], i % 4);
            self.set_attr(y, x, pal);
            if horizontal {
                x = x + 1;
                if x >= 20 {
                    x = 0;
                    y = y + 1;
                }
            } else {
                y = y + 1;
                if y >= 18 {
                    y = 0;
                    x = x + 1;
                }
            }
            i = i + 1;
        }
    }

    fn apply_attr_file(&mut self, file_idx: usize)
        requires
            old(self)@.attr_wf(),
            old(self)@.sizes_wf(),
        ensures
            final(self)@ == file_applied(old(self)@, file_idx as int),
            final(self)@.attr_wf(),
    {
        if file_idx >= 45 {
            return;
        }
        let ghost before = self@;
        let file: [u8; 90] = self.attr_files[file_idx];
        let mut y: usize = 0;
        while y < 18
            invariant
                y <= 18,
                file@ == before.attr_files[file_idx as int],
                self@ == (SgbView { attr_map: self@.attr_map, ..before }),
                grid_wf(self@.attr_map),
                forall|b: int, a: int|
                    0 <= b < y && 0 <= a < 20 ==> #[trigger] self@.attr_map[b][a] == file_grid(
                        file@,
                    )[b][a],
            decreases 18 - y,
        {
            let mut x: usize = 0;
            while x < 20
                invariant
                    x <= 20,
                    y < 18,
                    file@ == before.attr_files[file_idx as int],
                    self@ == (SgbView { attr_map: self@.attr_map, ..before }),
                    grid_wf(self@.attr_map),
                    forall|b: int, a: int|
                        0 <= b < 18 && 0 <= a < 20 && (b < y || (b == y && a < x))
                            ==> #[trigger] self@.attr_map[b][a] == file_grid(file@)[b][a],
                decreases 20 - x,
            {
                let i: usize = 20 * y + x;
                let pal: u8 = exec_pair(file[i / 4], i % 4);
                self.set_attr(y, x, pal);
                x = x + 1;
            }
            y = y + 1;
        }
        assert(self@.attr_map =~~= file_grid(file@));
    }
}

// ── Transfers ──

/// Little-endian word `i` of a block of bytes, or the old word where the block
/// is too short.
pub open spec fn word_or(data: Seq<u8>, i: int, old_word: u16) -> u16 {
    if 2 * i + 1 < data.len() {
        (data[2 * i] + 0x100 * data[2 * i + 1]) as u16
    } else {
        old_word
    }
}

/// System palettes after PAL_TRN.
pub open spec fn palettes_loaded(sys: Seq<u16>, data: Seq<u8>) -> Seq<u16> {
    Seq::new(sys.len(), |i: int| word_or(data, i, sys[i]))
}

/// The first words of a border map after PCT_TRN.
pub open spec fn map_loaded(map: Seq<u16>, data: Seq<u8>) -> Seq<u16> {
    Seq::new(
        map.len(),
        |i: int|
            if i < 896 {
                word_or(data, i, map[i])
            } else {
                map[i]
            },
    )
}

/// Border tiles after CHR_TRN into the lower or upper half, if there is room
/// for what is transferred.
pub open spec fn tiles_loaded(tiles: Seq<u8>, data: Seq<u8>, upper: bool) -> Seq<u8> {
    let start: int = if upper {
        4096
    } else {
        0
    };
    let len: int = if data.len() < 4096 {
        data.len() as int
    } else {
        4096
    };
    Seq::new(
        tiles.len(),
        |i: int|
            if start + len <= tiles.len() && start <= i < start + len {
                data[i - start]
            } else {
                tiles[i]
            },
    )
}

/// Border palettes after PCT_TRN; they lie at offset 0x800.
pub open spec fn border_palettes_loaded(pals: Seq<Seq<u16>>, data: Seq<u8>) -> Seq<Seq<u16>> {
    Seq::new(
        4,
        |p: int| Seq::new(16, |c: int| word_or(data, 0x400 + 16 * p + c, pals[p][c])),
    )
}

/// Attribute files after ATTR_TRN.
pub open spec fn files_loaded(files: Seq<Seq<u8>>, data: Seq<u8>) -> Seq<Seq<u8>> {
    Seq::new(
        45,
        |f: int|
            Seq::new(
                90,
                |b: int|
                    if 90 * f + b < data.len() {
                        data[90 * f + b]
                    } else {
                        files[f][b]
                    },
            ),
    )
}

/// The pending transfer takes place with the given VRAM bytes.
pub open spec fn transfer_executed(v: SgbView, data: Seq<u8>) -> SgbView {
    let v1 = SgbView { pending_transfer: None, ..v };
    match v.pending_transfer {
        None => v,
        Some(cmd) => if cmd == 0x0B {
            SgbView { sys_palettes: palettes_loaded(v.sys_palettes, data), ..v1 }
        } else if cmd == 0x13 {
            SgbView {
                border_tiles: tiles_loaded(v.border_tiles, data, v.pending_transfer_data != 0),
                border_dirty: true,
                ..v1
            }
        } else if cmd == 0x14 {
            SgbView {
                border_map: map_loaded(v.border_map, data),
                border_palettes: border_palettes_loaded(v.border_palettes, data),
                border_dirty: true,
                ..v1
            }
        } else if cmd == 0x15 {
            SgbView { attr_files: files_loaded(v.attr_files, data), ..v1 }
        } else {
            v1
        },
    }
}

fn word_at(data: &[u8], i: usize, old_word: u16) -> (w: u16)
    requires
        i <= 0x1000,
    ensures
        w == word_or(data@, i as int, old_word),
{
    if 2 * i + 1 < data.len() {
        data[2 * i] as u16 + 0x100 * (data[2 * i + 1] as u16)
    } else {
        old_word
    }
}

/// Load the first `n` words in place, as far as the block reaches.
fn load_words(words: &mut Vec<u16>, n: usize, data: &[u8])
    requires
        n <= old(words)@.len(),
        n <= 0x1000,
    ensures
        final(words)@.len() == old(words)@.len(),
        forall|k: int|
            0 <= k < old(words)@.len() ==> #[trigger] final(words)@[k] == (if k < n {
                word_or(data@, k, old(words)@[k])
            } else {
                old(words)@[k]
            }),
{
    let ghost before = words@;
    let mut i: usize = 0;
    while i < n
        invariant
            i <= n <= before.len(),
            words@.len() == before.len(),
            n <= 0x1000,
            forall|k: int|
                0 <= k < before.len() ==> #[trigger] words@[k] == (if k < i {
                    word_or(data@, k, before[k])
                } else {
                    before[k]
                }),
        decreases n - i,
    {
        let w: u16 = word_at(data, i, words[i]);
        words[i] = w;
        i = i + 1;
    }
}

// ── Pictures ──

/// 5-bit color channel widened to 8 bits.
pub open spec fn channel8(c5: int) -> int {
    c5 * 8 + c5 / 4
}

/// RGB555 color as 0x00RRGGBB.
pub open spec fn rgb32(c: u16) -> u32 {
    (channel8(c as int % 32) * 0x1_0000 + channel8(c as int / 32 % 32) * 0x100 + channel8(
        c as int / 1024 % 32,
    )) as u32
}

/// Color of a pixel of the Game Boy picture under the palettes.
pub open spec fn game_pixel(v: SgbView, shades: Seq<u8>, i: int) -> u32 {
    let pal = v.attr_map[i / 160 / 8][i % 160 / 8] as int;
    let p = if pal < 3 {
        pal
    } else {
        3
    };
    rgb32(v.palettes[p][shades[i] as int % 4])
}

/// A byte of the border tiles; missing bytes are 0.
pub open spec fn tile_byte(tiles: Seq<u8>, i: int) -> u8 {
    if i < tiles.len() {
        tiles[i]
    } else {
        0
    }
}

/// Color number of a pixel of a border tile: one bit from each of four planes.
pub open spec fn tile_color(tiles: Seq<u8>, tile: int, row: int, bit: int) -> int {
    let base = 32 * tile + 2 * row;
    bit_of(tile_byte(tiles, base), bit) + 2 * bit_of(tile_byte(tiles, base + 1), bit) + 4 * bit_of(
        tile_byte(tiles, base + 16),
        bit,
    ) + 8 * bit_of(tile_byte(tiles, base + 17), bit)
}

/// Pixel of the 256x224 border; color 0 is transparent (0).
pub open spec fn border_pixel(v: SgbView, i: int) -> u32 {
    let x = i % 256;
    let y = i / 256;
    let entry = v.border_map[y / 8 * 32 + x / 8] as int;
    let row = if entry >= 0x8000 {
        7 - y % 8
    } else {
        y % 8
    };
    let bit = if entry / 0x4000 % 2 == 1 {
        x % 8
    } else {
        7 - x % 8
    };
    let color = tile_color(v.border_tiles, entry % 256, row, bit);
    if color == 0 {
        0
    } else {
        rgb32(v.border_palettes[entry / 1024 % 4][color])
    }
}

/// The border with the game picture placed at (48, 40).
pub open spec fn composited(border: Seq<u32>, game: Seq<u32>) -> Seq<u32> {
    Seq::new(
        border.len(),
        |i: int|
            if i < BORDER_PIXELS && 48 <= i % 256 < 208 && 40 <= i / 256 < 184 {
                game[(i / 256 - 40) * 160 + (i % 256 - 48)]
            } else {
                border[i]
            },
    )
}

fn exec_bit(b: u8, k: usize) -> (r: u8)
    requires
        k < 8,
    ensures
        r == bit_of(b, k as int),
        r <= 1,
{
    let w: u8 = exec_weight(k as u16);
    b / w % 2
}

impl Sgb {
    // ── Commands ──

    /// PAL_SET: select system palettes and, optionally, an attribute file.
    fn cmd_pal_set(&mut self)
        requires
            old(self)@.buf.len() >= 16,
            old(self)@.buf[0] / 8 == 0x0A,
            old(self)@.sizes_wf(),
            old(self)@.attr_wf(),
        ensures
            final(self)@ == command_executed(old(self)@),
            final(self)@.attr_wf(),
    {
        reveal(command_executed);
        let ghost before = self@;
        let mut i: usize = 0;
        let c0: u16 = self.sys_palettes[4 * ((self.packet_buf[1] as usize + 0x100 * (
        self.packet_buf[2] as usize)) % 512)];
        while i < 4
            invariant
                i <= 4,
                before.buf.len() >= 16,
                before.sizes_wf(),
                c0 == before.sys_palettes[4 * selected_palette(before.buf, 0)],
                self@ == (SgbView { palettes: self@.palettes, ..before }),
                forall|p: int, c: int|
                    0 <= p < i && 0 <= c < 4 ==> #[trigger] self@.palettes[p][c]
                        == palettes_selected(before.sys_palettes, before.buf)[p][c],
            decreases 4 - i,
        {
            let base: usize = 4 * ((self.packet_buf[1 + 2 * i] as usize + 0x100 * (
            self.packet_buf[2 + 2 * i] as usize)) % 512);
            let row: [u16; 4] = [
                c0,
                self.sys_palettes[base + 1],
                self.sys_palettes[base + 2],
                self.sys_palettes[base + 3],
            ];
            let ghost prev = self@.palettes;
            self.palettes[i] = row;
            assert(self@.palettes =~~= prev.update(i as int, row@));
            assert(row@ =~= palettes_selected(before.sys_palettes, before.buf)[i as int]);
            i = i + 1;
        }
        assert(self@.palettes =~~= palettes_selected(before.sys_palettes, before.buf));
        let attr_byte: u8 = self.packet_buf[9];
        if attr_byte >= 0x80 {
            self.apply_attr_file(attr_byte as usize % 64);
        }
        if attr_byte / 64 % 2 == 1 {
            self.mask_mode = 0;
        }
    }

    fn request_transfer(&mut self, command: u8, data: u8)
        ensures
            final(self)@ == transfer_requested(old(self)@, command, data),
    {
        self.pending_transfer = Some(command);
        self.pending_transfer_data = data;
        self.transfer_countdown = 2;
    }

    /// Execute the command in the packet buffer.
    fn execute_command(&mut self)
        requires
            old(self)@.buf.len() >= 16,
            old(self)@.sizes_wf(),
            old(self)@.attr_wf(),
        ensures
            final(self)@ == command_executed(old(self)@),
    {
        reveal(command_executed);
        let cmd: u8 = self.packet_buf[0] / 8;
        match cmd {
            0x00 => self.cmd_palette_pair(0, 1),
            0x01 => self.cmd_palette_pair(2, 3),
            0x02 => self.cmd_palette_pair(0, 3),
            0x03 => self.cmd_palette_pair(1, 2),
            0x04 => self.cmd_attr_blk(),
            0x05 => self.cmd_attr_lin(),
            0x06 => self.cmd_attr_div(),
            0x07 => self.cmd_attr_chr(),
            0x0A => self.cmd_pal_set(),
            0x0B => self.request_transfer(0x0B, 0),
            0x11 => {
                self.player_count = match self.packet_buf[1] % 4 {
                    1 => 2,
                    3 => 4,
                    _ => 1,
                };
                self.current_player = 0;
            },
            0x13 => self.request_transfer(0x13, self.packet_buf[1] % 2),
            0x14 => self.request_transfer(0x14, 0),
            0x15 => self.request_transfer(0x15, 0),
            0x16 => {
                let data: u8 = self.packet_buf[1];
                self.apply_attr_file(data as usize % 64);
                if data / 64 % 2 == 1 {
                    self.mask_mode = 0;
                }
            },
            0x17 => {
                self.mask_mode = self.packet_buf[1] % 4;
            },
            _ => {},
        }
    }

    // ── Packet protocol ──

    /// The current packet is complete: execute the command or wait for more.
    fn finish_packet(&mut self)
        requires
            old(self)@.wf(),
            old(self)@.state == PacketState::ReceivingBits,
        ensures
            final(self)@ == packet_finished(old(self)@),
            final(self)@.wf(),
    {
        let ghost before = self@;
        let target: usize = (self.packets_received as usize + 1) * 16;
        while self.packet_buf.len() < target
            invariant
                target == 16 * (before.packets_received + 1),
                before.buf.len() <= self@.buf.len() <= target,
                self@ == (SgbView { buf: self@.buf, ..before }),
                forall|k: int|
                    0 <= k < self@.buf.len() ==> #[trigger] self@.buf[k] == (if k
                        < before.buf.len() {
                        before.buf[k]
                    } else {
                        0
                    }),
            decreases target - self@.buf.len(),
        {
            self.packet_buf.push(0);
        }
        assert(self@.buf =~= padded(before.buf, target as int));
        if self.packets_received == 0 {
            let n: u8 = self.packet_buf[0] % 8;
            self.expected_packets = if n == 0 {
                1
            } else {
                n
            };
        }
        self.packets_received = self.packets_received + 1;
        self.state = PacketState::Idle;
        if self.lle_mode {
            self.relay_packet(target - 16);
        }
        let ghost mid = self@;
        if self.packets_received >= self.expected_packets {
            self.execute_command();
            proof {
                lemma_command_keeps_wf(mid);
            }
            self.packets_received = 0;
            self.expected_packets = 0;
            self.packet_buf.clear();
        }
    }

    /// Relay the packet at `start` to the SNES.
    fn relay_packet(&mut self, start: usize)
        requires
            start + 16 <= old(self)@.buf.len(),
        ensures
            final(self)@ == (SgbView {
                pending_packets: old(self)@.pending_packets.push(
                    old(self)@.buf.subrange(start as int, start + 16),
                ),
                ..old(self)@
            }),
    {
        let ghost before = self@;
        let _len: usize = self.packet_buf.len();
        let mut pkt: [u8; 16] = [0u8;16];
        let mut i: usize = 0;
        while i < 16
            invariant
                i <= 16,
                start + 16 <= before.buf.len() <= usize::MAX,
                self@ == before,
                forall|k: int| 0 <= k < i ==> #[trigger] pkt@[k] == before.buf[start + k],
            decreases 16 - i,
        {
            pkt[i] = self.packet_buf[start + i];
            i = i + 1;
        }
        assert(pkt@ =~= before.buf.subrange(start as int, start + 16));
        self.pending_packets.push(pkt);
        assert(self@.pending_packets =~~= before.pending_packets.push(
            before.buf.subrange(start as int, start + 16),
        ));
    }

    /// The game writes P1.
    pub fn write_p1(&mut self, val: u8)
        requires
            old(self)@.wf(),
        ensures
            final(self)@ == p1_written(old(self)@, val),
            final(self)@.wf(),
    {
        let p1: u8 = val / 16 % 4 * 16;
        let old_p1: u8 = self.last_p1;
        self.last_p1 = p1;
        if !self.protocol_active {
            return;
        }
        if self.player_count > 1 && self.state == PacketState::Idle {
            if old_p1 < 0x20 && p1 >= 0x20 {
                self.current_player = (self.current_player + 1) % self.player_count;
            }
        }
        match self.state {
            PacketState::Idle => {
                if old_p1 == 0x00 && p1 == 0x30 {
                    self.state = PacketState::ReceivingBits;
                    self.bit_count = 0;
                    self.current_byte = 0;
                    if self.packets_received == 0 {
                        self.packet_buf.clear();
                    }
                }
            },
            PacketState::ReceivingBits => {
                if p1 == 0x00 {
                    self.finish_packet();
                } else if old_p1 == 0x30 && (p1 == 0x10 || p1 == 0x20) {
                    if self.bit_count < 128 {
                        let bit: u8 = if p1 == 0x10 {
                            1
                        } else {
                            0
                        };
                        self.receive_bit(bit);
                    } else {
                        self.finish_packet();
                    }
                }
            },
        }
    }

    fn receive_bit(&mut self, bit: u8)
        requires
            old(self)@.wf(),
            old(self)@.state == PacketState::ReceivingBits,
            old(self)@.bit_count < 128,
            bit <= 1,
        ensures
            final(self)@ == bit_received(old(self)@, bit as int),
            final(self)@.wf(),
    {
        let k: u16 = self.bit_count % 8;
        if bit == 1 {
            self.current_byte = self.current_byte + exec_weight(k);
        }
        self.bit_count = self.bit_count + 1;
        if k == 7 {
            self.packet_buf.push(self.current_byte);
            self.current_byte = 0;
        }
    }

    /// Low nibble of P1 when no line is selected: the player's number,
    /// counted down from 15, or all ones for a single player.
    pub fn read_p1_id(&self) -> (r: u8)
        requires
            self@.player_count <= 1 || self@.current_player < 16,
        ensures
            r == (if self@.player_count <= 1 {
                0x0F
            } else {
                0x0F - self@.current_player
            }),
    {
        if self.player_count <= 1 {
            0x0F
        } else {
            0x0F - self.current_player
        }
    }

    // ── Transfers ──

    /// Execute a pending transfer with the first 4096 bytes of VRAM.
    pub fn execute_transfer(&mut self, vram_data: &[u8])
        requires
            old(self)@.wf(),
        ensures
            final(self)@ == transfer_executed(old(self)@, vram_data@),
            final(self)@.wf(),
    {
        let ghost before = self@;
        let cmd: u8 = match self.pending_transfer {
            Some(c) => c,
            None => {
                return;
            },
        };
        self.pending_transfer = None;
        match cmd {
            0x0B => {
                load_words(&mut self.sys_palettes, 2048, vram_data);
                assert(self@.sys_palettes =~= palettes_loaded(before.sys_palettes, vram_data@));
            },
            0x13 => {
                self.load_tiles(vram_data);
                self.border_dirty = true;
            },
            0x14 => {
                load_words(&mut self.border_map, 896, vram_data);
                assert(self@.border_map =~= map_loaded(before.border_map, vram_data@));
                self.load_border_palettes(vram_data);
                self.border_dirty = true;
            },
            0x15 => self.load_files(vram_data),
            _ => {},
        }
    }

    fn load_tiles(&mut self, data: &[u8])
        requires
            old(self)@.sizes_wf(),
        ensures
            final(self)@ == (SgbView {
                border_tiles: tiles_loaded(
                    old(self)@.border_tiles,
                    data@,
                    old(self)@.pending_transfer_data != 0,
                ),
                ..old(self)@
            }),
    {
        let ghost before = self@;
        let upper: bool = self.pending_transfer_data != 0;
        let start: usize = if upper {
            4096
        } else {
            0
        };
        let len: usize = if data.len() < 4096 {
            data.len()
        } else {
            4096
        };
        if start + len > self.border_tiles.len() {
            assert(self@.border_tiles =~= tiles_loaded(before.border_tiles, data@, upper));
            return;
        }
        let mut i: usize = 0;
        while i < len
            invariant
                i <= len <= 4096,
                len <= data@.len(),
                start <= 4096,
                start + len <= before.border_tiles.len(),
                self@ == (SgbView { border_tiles: self@.border_tiles, ..before }),
                self@.border_tiles.len() == before.border_tiles.len(),
                forall|k: int|
                    0 <= k < before.border_tiles.len() ==> #[trigger] self@.border_tiles[k] == (if start <= k < start
                        + i {
                        data@[k - start]
                    } else {
                        before.border_tiles[k]
                    }),
            decreases len - i,
        {
            self.border_tiles[start + i] = data[i];
            i = i + 1;
        }
        assert(self@.border_tiles =~= tiles_loaded(before.border_tiles, data@, upper));
    }

    fn load_border_palettes(&mut self, data: &[u8])
        requires
            old(self)@.sizes_wf(),
        ensures
            final(self)@ == (SgbView {
                border_palettes: border_palettes_loaded(old(self)@.border_palettes, data@),
                ..old(self)@
            }),
    {
        let ghost before = self@;
        let mut p: usize = 0;
        while p < 4
            invariant
                p <= 4,
                self@ == (SgbView { border_palettes: self@.border_palettes, ..before }),
                forall|q: int, c: int|
                    0 <= q < 4 && 0 <= c < 16 ==> #[trigger] self@.border_palettes[q][c] == (if q
                        < p {
                        border_palettes_loaded(before.border_palettes, data@)[q][c]
                    } else {
                        before.border_palettes[q][c]
                    }),
            decreases 4 - p,
        {
            let mut row: [u16; 16] = self.border_palettes[p];
            let mut col: usize = 0;
            assert(forall|c: int| 0 <= c < 16 ==> #[trigger] row@[c] == self@.border_palettes[p as int][c]);
            while col < 16
                invariant
                    col <= 16,
                    p < 4,
                    forall|c: int|
                        0 <= c < 16 ==> #[trigger] row@[c] == (if c < col {
                            border_palettes_loaded(before.border_palettes, data@)[p as int][c]
                        } else {
                            before.border_palettes[p as int][c]
                        }),
                decreases 16 - col,
            {
                let w: u16 = word_at(data, 0x400 + 16 * p + col, row[col]);
                row[col] = w;
                col = col + 1;
            }
            let ghost prev = self@.border_palettes;
            self.border_palettes[p] = row;
            assert(self@.border_palettes =~~= prev.update(p as int, row@));
            p = p + 1;
        }
        assert(self@.border_palettes =~~= border_palettes_loaded(before.border_palettes, data@));
    }

    fn load_files(&mut self, data: &[u8])
        requires
            old(self)@.sizes_wf(),
        ensures
            final(self)@ == (SgbView {
                attr_files: files_loaded(old(self)@.attr_files, data@),
                ..old(self)@
            }),
    {
        let ghost before = self@;
        let mut f: usize = 0;
        while f < 45
            invariant
                f <= 45,
                before.sizes_wf(),
                self@ == (SgbView { attr_files: self@.attr_files, ..before }),
                self@.attr_files.len() == 45,
                forall|q: int, b: int|
                    0 <= q < 45 && 0 <= b < 90 ==> #[trigger] self@.attr_files[q][b] == (if q < f {
                        files_loaded(before.attr_files, data@)[q][b]
                    } else {
                        before.attr_files[q][b]
                    }),
            decreases 45 - f,
        {
            let mut file: [u8; 90] = self.attr_files[f];
            assert(forall|b: int| 0 <= b < 90 ==> #[trigger] file@[b] == self@.attr_files[f as int][b]);
            let mut b: usize = 0;
            while b < 90
                invariant
                    b <= 90,
                    f < 45,
                    forall|k: int|
                        0 <= k < 90 ==> #[trigger] file@[k] == (if k < b {
                            files_loaded(before.attr_files, data@)[f as int][k]
                        } else {
                            before.attr_files[f as int][k]
                        }),
                decreases 90 - b,
            {
                let at: usize = 90 * f + b;
                if at < data.len() {
                    file[b] = data[at];
                }
                b = b + 1;
            }
            let ghost prev = self@.attr_files;
            self.attr_files[f] = file;
            assert(self@.attr_files =~~= prev.update(f as int, file@));
            f = f + 1;
        }
        assert(self@.attr_files =~~= files_loaded(before.attr_files, data@));
    }

    /// True when a transfer is due now.
    pub fn has_pending_transfer(&self) -> (r: bool)
        ensures
            r == (self@.pending_transfer is Some && self@.transfer_countdown == 0),
    {
        self.pending_transfer.is_some() && self.transfer_countdown == 0
    }

    /// Count down to a pending transfer (once per frame).
    pub fn tick_transfer(&mut self)
        ensures
            final(self)@ == transfer_ticked(old(self)@),
    {
        if self.transfer_countdown > 0 {
            self.transfer_countdown = self.transfer_countdown - 1;
        }
    }

    // ── Pictures ──

    /// RGB555 color as 0x00RRGGBB.
    pub fn rgb555_to_rgb32(c: u16) -> (r: u32)
        ensures
            r == rgb32(c),
    {
        let r5: u32 = c as u32 % 32;
        let g5: u32 = c as u32 / 32 % 32;
        let b5: u32 = c as u32 / 1024 % 32;
        (r5 * 8 + r5 / 4) * 0x1_0000 + (g5 * 8 + g5 / 4) * 0x100 + (b5 * 8 + b5 / 4)
    }

    /// Color a picture of shades. A tile that names no palette has the last one.
    pub fn apply_palettes(&self, shade_buf: &[u8], frame_out: &mut [u32])
        requires
            shade_buf@.len() >= GAME_PIXELS,
            old(frame_out)@.len() >= GAME_PIXELS,
        ensures
            final(frame_out)@ == Seq::new(
                old(frame_out)@.len(),
                |i: int|
                    if i < GAME_PIXELS {
                        game_pixel(self@, shade_buf@, i)
                    } else {
                        old(frame_out)@[i]
                    },
            ),
    {
        let ghost before = frame_out@;
        let mut i: usize = 0;
        while i < GAME_PIXELS
            invariant
                i <= GAME_PIXELS,
                shade_buf@.len() >= GAME_PIXELS,
                frame_out@.len() == before.len() >= GAME_PIXELS,
                forall|k: int|
                    0 <= k < before.len() ==> #[trigger] frame_out@[k] == (if k < i {
                        game_pixel(self@, shade_buf@, k)
                    } else {
                        before[k]
                    }),
            decreases GAME_PIXELS - i,
        {
            let y: usize = i / 160 / 8;
            let x: usize = i % 160 / 8;
            assert(self@.attr_map[y as int][x as int] == self.attr_map@[y as int]@[x as int]);
            let pal: usize = self.attr_map[y][x] as usize;
            let p: usize = if pal < 3 {
                pal
            } else {
                3
            };
            let shade: usize = shade_buf[i] as usize % 4;
            frame_out[i] = Self::rgb555_to_rgb32(self.palettes[p][shade]);
            i = i + 1;
        }
        assert(frame_out@ =~= Seq::new(
            before.len(),
            |i: int|
                if i < GAME_PIXELS {
                    game_pixel(self@, shade_buf@, i)
                } else {
                    before[i]
                },
        ));
    }

    fn tile_byte_at(&self, i: usize) -> (b: u8)
        ensures
            b == tile_byte(self@.border_tiles, i as int),
    {
        if i < self.border_tiles.len() {
            self.border_tiles[i]
        } else {
            0
        }
    }

    /// One pixel of the border.
    fn border_pixel_at(&self, i: usize) -> (c: u32)
        requires
            self@.border_map.len() >= 896,
            i < BORDER_PIXELS,
        ensures
            c == border_pixel(self@, i as int),
    {
        let x: usize = i % 256;
        let y: usize = i / 256;
        let entry: u16 = self.border_map[y / 8 * 32 + x / 8];
        let row: usize = if entry >= 0x8000 {
            7 - y % 8
        } else {
            y % 8
        };
        let bit: usize = if entry / 0x4000 % 2 == 1 {
            x % 8
        } else {
            7 - x % 8
        };
        let base: usize = 32 * (entry as usize % 256) + 2 * row;
        let color: u8 = exec_bit(self.tile_byte_at(base), bit) + 2 * exec_bit(
            self.tile_byte_at(base + 1),
            bit,
        ) + 4 * exec_bit(self.tile_byte_at(base + 16), bit) + 8 * exec_bit(
            self.tile_byte_at(base + 17),
            bit,
        );
        if color == 0 {
            0
        } else {
            Self::rgb555_to_rgb32(self.border_palettes[entry as usize / 1024 % 4][color as usize])
        }
    }

    /// Render the 256x224 border.
    pub fn render_border(&self, border_buf: &mut [u32])
        requires
            self@.border_map.len() >= 896,
            old(border_buf)@.len() >= BORDER_PIXELS,
        ensures
            final(border_buf)@ == Seq::new(
                old(border_buf)@.len(),
                |i: int|
                    if i < BORDER_PIXELS {
                        border_pixel(self@, i)
                    } else {
                        old(border_buf)@[i]
                    },
            ),
    {
        let ghost before = border_buf@;
        let mut i: usize = 0;
        while i < BORDER_PIXELS
            invariant
                i <= BORDER_PIXELS,
                self@.border_map.len() >= 896,
                border_buf@.len() == before.len() >= BORDER_PIXELS,
                forall|k: int|
                    0 <= k < before.len() ==> #[trigger] border_buf@[k] == (if k < i {
                        border_pixel(self@, k)
                    } else {
                        before[k]
                    }),
            decreases BORDER_PIXELS - i,
        {
            border_buf[i] = self.border_pixel_at(i);
            i = i + 1;
        }
        assert(border_buf@ =~= Seq::new(
            before.len(),
            |i: int|
                if i < BORDER_PIXELS {
                    border_pixel(self@, i)
                } else {
                    before[i]
                },
        ));
    }

    /// Place the game picture into the border.
    pub fn composite_frame(border_buf: &mut [u32], game_buf: &[u32])
        requires
            old(border_buf)@.len() >= BORDER_PIXELS,
            game_buf@.len() >= GAME_PIXELS,
        ensures
            final(border_buf)@ == composited(old(border_buf)@, game_buf@),
    {
        let ghost before = border_buf@;
        let mut i: usize = 0;
        while i < BORDER_PIXELS
            invariant
                i <= BORDER_PIXELS,
                game_buf@.len() >= GAME_PIXELS,
                border_buf@.len() == before.len() >= BORDER_PIXELS,
                forall|k: int|
                    0 <= k < before.len() ==> #[trigger] border_buf@[k] == (if k < i {
                        composited(before, game_buf@)[k]
                    } else {
                        before[k]
                    }),
            decreases BORDER_PIXELS - i,
        {
            let x: usize = i % 256;
            let y: usize = i / 256;
            if 48 <= x && x < 208 && 40 <= y && y < 184 {
                border_buf[i] = game_buf[(y - 40) * 160 + (x - 48)];
            }
            i = i + 1;
        }
        assert(border_buf@ =~= composited(before, game_buf@));
    }
}

/// One frame closer to the pending transfer.
pub open spec fn transfer_ticked(v: SgbView) -> SgbView {
    SgbView {
        transfer_countdown: if v.transfer_countdown > 0 {
            (v.transfer_countdown - 1) as u8
        } else {
            0
        },
        ..v
    }
}

proof fn lemma_blocks_wf(g: Grid, buf: Seq<u8>, n: nat)
    requires
        grid_wf(g),
    ensures
        grid_wf(blocks_applied(g, buf, n)),
        grid_in_range(g) ==> grid_in_range(blocks_applied(g, buf, n)),
    decreases n,
{
    if n > 0 {
        lemma_blocks_wf(g, buf, (n - 1) as nat);
    }
}

proof fn lemma_lines_wf(g: Grid, buf: Seq<u8>, n: nat)
    requires
        grid_wf(g),
    ensures
        grid_wf(lines_applied(g, buf, n)),
        grid_in_range(g) ==> grid_in_range(lines_applied(g, buf, n)),
    decreases n,
{
    if n > 0 {
        lemma_lines_wf(g, buf, (n - 1) as nat);
    }
}

proof fn lemma_tiles_wf(
    g: Grid,
    buf: Seq<u8>,
    y: int,
    x: int,
    i: int,
    n: nat,
    horizontal: bool,
)
    requires
        grid_wf(g),
        0 <= y,
        0 <= x,
        0 <= i,
    ensures
        grid_wf(tiles_applied(g, buf, y, x, i, n, horizontal)),
        grid_in_range(g) ==> grid_in_range(tiles_applied(g, buf, y, x, i, n, horizontal)),
    decreases n,
{
    if n == 0 || y >= 18 || x >= 20 || 6 + i / 4 >= buf.len() {
    } else {
        let (y1, x1) = next_tile(y, x, horizontal);
        let g1 = g.update(y, g[y].update(x, pair_of(buf[6 + i / 4], i % 4)));
        assert(grid_wf(g1));
        assert(grid_in_range(g) ==> grid_in_range(g1));
        lemma_tiles_wf(g1, buf, y1, x1, i + 1, (n - 1) as nat, horizontal);
    }
}

/// Every command keeps the sizes, the attribute map and the player numbers
/// well-formed, and leaves the packet buffer alone.
pub proof fn lemma_command_keeps_wf(v: SgbView)
    requires
        v.sizes_wf(),
        v.attr_wf(),
        v.buf.len() >= 16,
        v.player_count <= 16,
        v.current_player < 16,
    ensures
        ({
            let w = command_executed(v);
            &&& w.sizes_wf()
            &&& w.attr_wf()
            &&& w.player_count <= 16
            &&& w.current_player < 16
            &&& v.in_range() ==> w.in_range()
            &&& w.buf == v.buf
            &&& w.state == v.state
            &&& w.last_p1 == v.last_p1
            &&& w.bit_count == v.bit_count
            &&& w.current_byte == v.current_byte
            &&& w.packets_received == v.packets_received
            &&& w.expected_packets == v.expected_packets
        }),
{
    reveal(command_executed);
    lemma_blocks_wf(v.attr_map, v.buf, block_count(v.buf));
    lemma_lines_wf(v.attr_map, v.buf, line_count(v.buf));
    lemma_tiles_wf(
        v.attr_map,
        v.buf,
        v.buf[2] as int,
        v.buf[1] as int,
        0,
        (v.buf[3] + 0x100 * v.buf[4]) as nat,
        v.buf[5] % 2 == 0,
    );
}

// ── Laws ──

/// The first color is the same in all four palettes.
pub open spec fn color0_shared(v: SgbView) -> bool {
    forall|p: int| 0 <= p < 4 ==> (#[trigger] v.palettes[p])[0] == v.palettes[0][0]
}

proof fn lemma_command_shares_color0(v: SgbView)
    requires
        v.sizes_wf(),
        v.attr_wf(),
        v.buf.len() >= 16,
        color0_shared(v),
    ensures
        color0_shared(command_executed(v)),
{
    reveal(command_executed);
    let cmd = v.buf[0] as int / 8;
    if cmd <= 3 {
        let a: int = if cmd == 1 { 2 } else if cmd == 3 { 1 } else { 0 };
        let b: int = if cmd == 0 { 1 } else if cmd == 3 { 2 } else { 3 };
        let w = command_executed(v);
        assert(w.palettes == palette_pair_set(v.palettes, v.buf, a, b));
        let c0 = command_color(v.buf, 1);
        assert forall|p: int| 0 <= p < 4 implies (#[trigger] w.palettes[p])[0] == c0 by {
            assert(v.palettes[p].len() == 4);
        }
    }
}

/// Color 0 is shared by all palettes: it is so at the start, and no write to
/// P1 and no transfer changes that.
pub proof fn law_color0_stays_shared(v: SgbView, val: u8, data: Seq<u8>)
    requires
        v.wf(),
        color0_shared(v),
    ensures
        color0_shared(sgb_initial()),
        color0_shared(p1_written(v, val)),
        color0_shared(transfer_executed(v, data)),
{
    let p1 = select_lines(val);
    let v1 = SgbView { last_p1: p1, ..player_cycled(v, p1) };
    assert(color0_shared(v1));
    let v2 = packet_completed(v1);
    assert(color0_shared(v2));
    lemma_command_shares_color0(v2);
    assert(color0_shared(packet_finished(v1)));
}

/// Tiles name one of the four palettes, and the current player is one of one,
/// two or four: it is so at the start, and no write to P1 and no transfer
/// changes that.
pub proof fn law_numbers_stay_in_range(v: SgbView, val: u8, data: Seq<u8>)
    requires
        v.wf(),
        v.in_range(),
    ensures
        sgb_initial().in_range(),
        p1_written(v, val).in_range(),
        transfer_executed(v, data).in_range(),
{
    let p1 = select_lines(val);
    let v1 = SgbView { last_p1: p1, ..player_cycled(v, p1) };
    let v2 = packet_completed(v1);
    lemma_command_keeps_wf(v2);
    assert(packet_finished(v1).in_range());
}

/// The game pulses one data bit: the line goes low and is released again.
pub open spec fn bit_sent(v: SgbView, bit: int) -> SgbView {
    p1_written(
        p1_written(
            v,
            if bit == 1 {
                0x10
            } else {
                0x20
            },
        ),
        0x30,
    )
}

/// The first `n` bits of a byte, least significant first.
pub open spec fn bits_sent(v: SgbView, b: u8, n: nat) -> SgbView
    decreases n,
{
    if n == 0 {
        v
    } else {
        bit_sent(bits_sent(v, b, (n - 1) as nat), bit_of(b, n - 1))
    }
}

/// The first `n` bytes of a packet.
pub open spec fn bytes_sent(v: SgbView, data: Seq<u8>, n: nat) -> SgbView
    decreases n,
{
    if n == 0 {
        v
    } else {
        bits_sent(bytes_sent(v, data, (n - 1) as nat), data[n - 1], 8)
    }
}

/// The pulse that opens a packet.
pub open spec fn reset_sent(v: SgbView) -> SgbView {
    p1_written(p1_written(v, 0x00), 0x30)
}

/// Ready for the first bit of a byte.
pub open spec fn at_byte_start(v: SgbView) -> bool {
    &&& v.protocol_active
    &&& v.state == PacketState::ReceivingBits
    &&& v.last_p1 == 0x30
    &&& v.bit_count % 8 == 0
    &&& 0 <= v.bit_count < 128
    &&& v.current_byte == 0
}

proof fn lemma_bit_sent(v: SgbView, bit: int)
    requires
        v.protocol_active,
        v.state == PacketState::ReceivingBits,
        v.last_p1 == 0x30,
        0 <= v.bit_count < 128,
        bit == 0 || bit == 1,
    ensures
        bit_sent(v, bit) == bit_received(v, bit),
{
    assert(select_lines(0x10) == 0x10);
    assert(select_lines(0x20) == 0x20);
    assert(select_lines(0x30) == 0x30);
}

/// Value of the low `n` bits of a byte.
pub open spec fn low_bits(b: u8, n: nat) -> int
    decreases n,
{
    if n == 0 {
        0
    } else {
        low_bits(b, (n - 1) as nat) + if bit_of(b, n - 1) == 1 {
            weight(n - 1)
        } else {
            0
        }
    }
}

/// One more low bit.
proof fn lemma_next_low_bit(i: int, w: int)
    requires
        i >= 0,
        w > 0,
    ensures
        i % (2 * w) == i % w + (if i / w % 2 == 1 {
            w
        } else {
            0
        }),
{
    let q = i / w;
    let r = i % w;
    lemma_fundamental_div_mod(i, w);
    lemma_fundamental_div_mod(q, 2);
    let k = q / 2;
    let b = q % 2;
    assert(i == k * (2 * w) + (b * w + r)) by (nonlinear_arith)
        requires
            i == w * q + r,
            q == 2 * k + b,
    ;
    assert(0 <= b * w + r < 2 * w) by (nonlinear_arith)
        requires
            0 <= b <= 1,
            0 <= r < w,
    ;
    lemma_fundamental_div_mod_converse(i, 2 * w, k, b * w + r);
    assert(b == 1 ==> b * w == w) by (nonlinear_arith);
    assert(b == 0 ==> b * w == 0) by (nonlinear_arith);
}

proof fn lemma_low_bits(b: u8, n: nat)
    requires
        n <= 8,
    ensures
        n < 8 ==> low_bits(b, n) == b as int % weight(n as int),
        n == 8 ==> low_bits(b, n) == b,
    decreases n,
{
    if n > 0 {
        lemma_low_bits(b, (n - 1) as nat);
        lemma_next_low_bit(b as int, weight(n - 1));
    }
}

proof fn lemma_bits_sent(v: SgbView, b: u8, n: nat)
    requires
        at_byte_start(v),
        n <= 8,
    ensures
        n < 8 ==> bits_sent(v, b, n) == (SgbView {
            current_byte: low_bits(b, n),
            bit_count: v.bit_count + n,
            ..v
        }),
        n == 8 ==> bits_sent(v, b, n) == (SgbView {
            buf: v.buf.push(b),
            bit_count: v.bit_count + 8,
            ..v
        }),
    decreases n,
{
    if n > 0 {
        lemma_bits_sent(v, b, (n - 1) as nat);
        let w = bits_sent(v, b, (n - 1) as nat);
        assert(w.bit_count == v.bit_count + (n - 1));
        assert(w.bit_count % 8 == n - 1);
        lemma_bit_sent(w, bit_of(b, n - 1));
        if n == 8 {
            lemma_low_bits(b, 8);
        }
    }
}

/// A packet that is sent bit by bit is received byte by byte: after the
/// opening pulse and the bits of the first `n` bytes, exactly these bytes have
/// been appended, and nothing else has changed since the opening pulse.
pub proof fn law_packet_bytes_are_received(v: SgbView, data: Seq<u8>, n: nat)
    requires
        v.wf(),
        v.protocol_active,
        v.state == PacketState::Idle,
        data.len() == 16,
        n <= 16,
    ensures
        bytes_sent(reset_sent(v), data, n) == (SgbView {
            buf: v.buf + data.take(n as int),
            bit_count: 8 * n as int,
            ..reset_sent(v)
        }),
        reset_sent(v).buf == v.buf,
    decreases n,
{
    let r = reset_sent(v);
    assert(select_lines(0x00) == 0x00);
    assert(select_lines(0x30) == 0x30);
    assert(r.buf =~= v.buf);
    if n == 0 {
        assert(v.buf + data.take(0) =~= v.buf);
    } else {
        law_packet_bytes_are_received(v, data, (n - 1) as nat);
        let w = bytes_sent(r, data, (n - 1) as nat);
        assert(at_byte_start(w));
        lemma_bits_sent(w, data[n - 1], 8);
        assert((v.buf + data.take(n - 1)).push(data[n - 1]) =~= v.buf + data.take(n as int));
    }
}

/// The game sends a packet: the opening pulse, 16 bytes, and a stop bit.
pub open spec fn packet_sent(v: SgbView, data: Seq<u8>) -> SgbView {
    bit_sent(bytes_sent(reset_sent(v), data, 16), 0)
}

/// A command of one packet, complete but not executed.
pub open spec fn command_received(v: SgbView, data: Seq<u8>) -> SgbView {
    SgbView {
        buf: data,
        bit_count: 128,
        packets_received: 1,
        expected_packets: 1,
        last_p1: 0x20,
        state: PacketState::Idle,
        pending_packets: if v.lle_mode {
            v.pending_packets.push(data)
        } else {
            v.pending_packets
        },
        ..reset_sent(v)
    }
}

proof fn lemma_command_keeps_lines(v: SgbView)
    ensures
        command_executed(v).state == v.state,
        command_executed(v).last_p1 == v.last_p1,
        command_executed(v).protocol_active == v.protocol_active,
{
    reveal(command_executed);
}

/// A packet that holds a whole command executes it, and leaves the receiver
/// ready for the next one.
pub proof fn law_single_packet_executes_its_command(v: SgbView, data: Seq<u8>)
    requires
        v.wf(),
        v.protocol_active,
        v.state == PacketState::Idle,
        v.packets_received == 0,
        data.len() == 16,
        packets_of(data[0]) == 1,
    ensures
        packet_sent(v, data) == (SgbView {
            last_p1: 0x30,
            packets_received: 0,
            expected_packets: 0,
            buf: Seq::<u8>::empty(),
            ..command_executed(command_received(v, data))
        }),
{
    law_packet_bytes_are_received(v, data, 16);
    let w = bytes_sent(reset_sent(v), data, 16);
    assert(v.buf.len() == 0);
    assert(w.buf =~= data);
    assert(select_lines(0x00) == 0x00);
    assert(select_lines(0x20) == 0x20);
    assert(select_lines(0x30) == 0x30);
    assert(padded(data, 16) =~= data);
    assert(data.subrange(0, 16) =~= data);
    let c = command_received(v, data);
    lemma_command_keeps_lines(c);
    let e = SgbView {
        packets_received: 0,
        expected_packets: 0,
        buf: Seq::<u8>::empty(),
        ..command_executed(c)
    };
    assert(p1_written(w, 0x20) == e);
    assert(p1_written(e, 0x30) == (SgbView { last_p1: 0x30, ..e }));
}

/// PAL_SET selects what PAL_TRN uploaded: after the upload of a full block, the
/// palettes are the selected quadruples of its words, with the first color of
/// the first one in all of them.
pub proof fn law_uploaded_palettes_are_selected(v: SgbView, data: Seq<u8>, buf: Seq<u8>, p: int, c: int)
    requires
        v.wf(),
        v.pending_transfer == Some(0x0Bu8),
        data.len() == 4096,
        buf.len() >= 16,
        buf[0] as int / 8 == 0x0A,
        0 <= p < 4,
        0 <= c < 4,
    ensures
        command_executed(SgbView { buf, ..transfer_executed(v, data) }).palettes[p][c] == word_or(
            data,
            4 * selected_palette(
                buf,
                if c == 0 {
                    0
                } else {
                    p
                },
            ) + c,
            0,
        ),
{
    reveal(command_executed);
}

/// ATTR_SET applies what ATTR_TRN uploaded: after the upload of a full block,
/// the map is that of the selected file of 90 bytes.
pub proof fn law_uploaded_files_are_applied(v: SgbView, data: Seq<u8>, buf: Seq<u8>, y: int, x: int)
    requires
        v.wf(),
        v.pending_transfer == Some(0x15u8),
        data.len() == 4096,
        buf.len() >= 16,
        buf[0] as int / 8 == 0x16,
        buf[1] as int % 64 < 45,
        0 <= y < 18,
        0 <= x < 20,
    ensures
        command_executed(SgbView { buf, ..transfer_executed(v, data) }).attr_map[y][x] == pair_of(
            data[90 * (buf[1] as int % 64) + (20 * y + x) / 4],
            (20 * y + x) % 4,
        ),
{
    reveal(command_executed);
}

/// A transfer that a command requests is due after exactly two frames.
pub proof fn law_transfer_is_due_after_two_frames(v: SgbView, command: u8, data: u8)
    ensures
        ({
            let w = transfer_requested(v, command, data);
            &&& w.pending_transfer == Some(command)
            &&& w.transfer_countdown != 0
            &&& transfer_ticked(w).transfer_countdown != 0
            &&& transfer_ticked(transfer_ticked(w)).transfer_countdown == 0
            &&& transfer_ticked(transfer_ticked(w)).pending_transfer == Some(command)
        }),
{
}

/// Widening a color keeps black black and white white, leaves the top byte
/// clear, and loses nothing but the unused top bit.
pub proof fn law_rgb32_is_faithful(a: u16, b: u16)
    ensures
        rgb32(0) == 0,
        rgb32(0x7FFF) == 0xFF_FFFF,
        rgb32(a) <= 0xFF_FFFF,
        rgb32(a) == rgb32(b) ==> a % 0x8000 == b % 0x8000,
{
    lemma_channels_apart(rgb32(a) as int, a);
    lemma_channels_apart(rgb32(b) as int, b);
    lemma_color_fields(a);
    lemma_color_fields(b);
}

proof fn lemma_color_fields(c: u16)
    ensures
        c % 0x8000 == c as int % 32 + 32 * (c as int / 32 % 32) + 1024 * (c as int / 1024 % 32),
{
    let v = c as int;
    let q1 = v / 32;
    let q2 = q1 / 32;
    let q3 = q2 / 32;
    lemma_div_denominator(v, 32, 32);
    lemma_div_denominator(v, 1024, 32);
    assert(v == 32 * q1 + v % 32);
    assert(q1 == 32 * q2 + q1 % 32);
    assert(q2 == 32 * q3 + q2 % 32);
    assert(v == 0x8000 * (v / 0x8000) + v % 0x8000);
}

/// Bytes of a number that is given by its bytes.
proof fn lemma_three_bytes(x: int, y: int, z: int)
    requires
        0 <= x <= 255,
        0 <= y <= 255,
        0 <= z <= 255,
    ensures
        (x * 0x1_0000 + y * 0x100 + z) / 0x1_0000 == x,
        (x * 0x1_0000 + y * 0x100 + z) / 0x100 % 0x100 == y,
        (x * 0x1_0000 + y * 0x100 + z) % 0x100 == z,
{
    let r = x * 0x1_0000 + y * 0x100 + z;
    assert(r / 0x100 == x * 0x100 + y);
}

proof fn lemma_channel8(k: int)
    requires
        0 <= k < 32,
    ensures
        0 <= channel8(k) <= 255,
        channel8(k) / 8 == k,
{
}

/// The three bytes of a widened color are its widened channels.
proof fn lemma_channels_apart(r: int, c: u16)
    requires
        r == rgb32(c),
    ensures
        r / 0x1_0000 == channel8(c as int % 32),
        r / 0x100 % 0x100 == channel8(c as int / 32 % 32),
        r % 0x100 == channel8(c as int / 1024 % 32),
        channel8(c as int % 32) / 8 == c as int % 32,
        channel8(c as int / 32 % 32) / 8 == c as int / 32 % 32,
        channel8(c as int / 1024 % 32) / 8 == c as int / 1024 % 32,
        0 <= r <= 0xFF_FFFF,
{
    let i = c as int % 32;
    let j = c as int / 32 % 32;
    let k = c as int / 1024 % 32;
    lemma_channel8(i);
    lemma_channel8(j);
    lemma_channel8(k);
    lemma_three_bytes(channel8(i), channel8(j), channel8(k));
}

} // verus!
