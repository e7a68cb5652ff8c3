//! Laws of the Super Game Boy: what the bytes of a command do to the palettes,
//! the attribute map and the border, and what is shown of them.

use vstd::prelude::*;

use crate::sgb::{
    at_byte_start, bit_received, block_count, block_tile, blocks_applied, border_palettes_loaded,
    border_pixel, command_executed, command_received, composited, files_loaded, game_pixel, grid_wf,
    lines_applied, map_loaded, next_tile, p1_written, packet_completed, packet_finished, padded,
    pair_of, palettes_loaded, rgb32, select_lines, tiles_applied, tiles_loaded, transfer_executed,
    transfer_ticked, Grid, PacketState, SgbView,
};

verus! {

// ── The serial line ──

/// One bit over the two select lines: a one lowers the second, a zero the first,
/// and both are raised again.
#[verifier::opaque]
pub open spec fn pulsed(v: SgbView, one: bool) -> SgbView {
    let low = p1_written(
        v,
        if one {
            0x10
        } else {
            0x20
        },
    );
    p1_written(low, 0x30)
}

/// A byte, its lowest bit first.
#[verifier::opaque]
pub open spec fn byte_pulsed(v: SgbView, b: u8) -> SgbView {
    let v0 = pulsed(v, b as int % 2 == 1);
    let v1 = pulsed(v0, b as int / 2 % 2 == 1);
    let v2 = pulsed(v1, b as int / 4 % 2 == 1);
    let v3 = pulsed(v2, b as int / 8 % 2 == 1);
    let v4 = pulsed(v3, b as int / 16 % 2 == 1);
    let v5 = pulsed(v4, b as int / 32 % 2 == 1);
    let v6 = pulsed(v5, b as int / 64 % 2 == 1);
    pulsed(v6, b as int / 128 % 2 == 1)
}

/// The first `n` bytes of a packet.
pub open spec fn bytes_pulsed(v: SgbView, data: Seq<u8>, n: nat) -> SgbView
    decreases n,
{
    if n == 0 {
        v
    } else {
        byte_pulsed(bytes_pulsed(v, data, (n - 1) as nat), data[n - 1])
    }
}

/// A packet: both lines low and high again, 16 bytes, and a zero to close it.
pub open spec fn packet_pulsed(v: SgbView, data: Seq<u8>) -> SgbView {
    let opened = p1_written(p1_written(v, 0x00), 0x30);
    pulsed(bytes_pulsed(opened, data, 16), false)
}

proof fn lemma_pulsed(v: SgbView, one: bool)
    requires
        v.protocol_active,
        v.state == PacketState::ReceivingBits,
        v.last_p1 == 0x30,
        0 <= v.bit_count < 128,
    ensures
        pulsed(v, one) == bit_received(
            v,
            if one {
                1
            } else {
                0
            },
        ),
{
    reveal(pulsed);
    assert(select_lines(0x10) == 0x10);
    assert(select_lines(0x20) == 0x20);
    assert(select_lines(0x30) == 0x30);
}

proof fn lemma_eight_bits(b: u8)
    by (bit_vector)
    ensures
        b == b % 2 + 2 * (b / 2 % 2) + 4 * (b / 4 % 2) + 8 * (b / 8 % 2) + 16 * (b / 16 % 2) + 32
            * (b / 32 % 2) + 64 * (b / 64 % 2) + 128 * (b / 128 % 2),
{
}

/// Eight bits, the lowest first, are received as one byte.
pub proof fn law_byte_is_received(v: SgbView, b: u8)
    requires
        at_byte_start(v),
    ensures
        byte_pulsed(v, b) == (SgbView { buf: v.buf.push(b), bit_count: v.bit_count + 8, ..v }),
{
    reveal(byte_pulsed);
    let b0 = b as int % 2;
    let b1 = b as int / 2 % 2;
    let b2 = b as int / 4 % 2;
    let b3 = b as int / 8 % 2;
    let b4 = b as int / 16 % 2;
    let b5 = b as int / 32 % 2;
    let b6 = b as int / 64 % 2;
    let b7 = b as int / 128 % 2;
    lemma_eight_bits(b);
    lemma_pulsed(v, b0 == 1);
    let v0 = pulsed(v, b0 == 1);
    assert(v0 == (SgbView { current_byte: b0, bit_count: v.bit_count + 1, ..v }));
    lemma_pulsed(v0, b1 == 1);
    let v1 = pulsed(v0, b1 == 1);
    assert(v1 == (SgbView { current_byte: b0 + 2 * b1, bit_count: v.bit_count + 2, ..v }));
    lemma_pulsed(v1, b2 == 1);
    let v2 = pulsed(v1, b2 == 1);
    let s2 = b0 + 2 * b1 + 4 * b2;
    assert(v2 == (SgbView { current_byte: s2, bit_count: v.bit_count + 3, ..v }));
    lemma_pulsed(v2, b3 == 1);
    let v3 = pulsed(v2, b3 == 1);
    let s3 = s2 + 8 * b3;
    assert(v3 == (SgbView { current_byte: s3, bit_count: v.bit_count + 4, ..v }));
    lemma_pulsed(v3, b4 == 1);
    let v4 = pulsed(v3, b4 == 1);
    let s4 = s3 + 16 * b4;
    assert(v4 == (SgbView { current_byte: s4, bit_count: v.bit_count + 5, ..v }));
    lemma_pulsed(v4, b5 == 1);
    let v5 = pulsed(v4, b5 == 1);
    let s5 = s4 + 32 * b5;
    assert(v5 == (SgbView { current_byte: s5, bit_count: v.bit_count + 6, ..v }));
    lemma_pulsed(v5, b6 == 1);
    let v6 = pulsed(v5, b6 == 1);
    let s6 = s5 + 64 * b6;
    assert(v6 == (SgbView { current_byte: s6, bit_count: v.bit_count + 7, ..v }));
    lemma_pulsed(v6, b7 == 1);
    assert((s6 + 128 * b7) as u8 == b);
}

proof fn lemma_bytes_pulsed(v: SgbView, data: Seq<u8>, n: nat)
    requires
        at_byte_start(v),
        v.bit_count == 0,
        data.len() == 16,
        n <= 16,
    ensures
        bytes_pulsed(v, data, n) == (SgbView {
            buf: v.buf + data.take(n as int),
            bit_count: 8 * n as int,
            ..v
        }),
    decreases n,
{
    if n == 0 {
        assert(v.buf + data.take(0) =~= v.buf);
    } else {
        lemma_bytes_pulsed(v, data, (n - 1) as nat);
        let w = bytes_pulsed(v, data, (n - 1) as nat);
        assert(at_byte_start(w));
        law_byte_is_received(w, data[n - 1]);
        assert((v.buf + data.take(n - 1)).push(data[n - 1]) =~= v.buf + data.take(n as int));
    }
}

proof fn lemma_command_keeps_receiver(v: SgbView)
    ensures
        command_executed(v).state == v.state,
        command_executed(v).last_p1 == v.last_p1,
        command_executed(v).protocol_active == v.protocol_active,
        command_executed(v).pending_packets == v.pending_packets,
        command_executed(v).lle_mode == v.lle_mode,
        command_executed(v).border_tiles == v.border_tiles,
        command_executed(v).border_map == v.border_map,
        command_executed(v).border_palettes == v.border_palettes,
        command_executed(v).attr_files == v.attr_files,
        command_executed(v).sys_palettes == v.sys_palettes,
{
    reveal(command_executed);
}

/// A packet on the line whose low three bits say one (or none) carries out its
/// command, and the receiver waits for the next packet.
pub proof fn law_packet_is_carried_out(v: SgbView, data: Seq<u8>)
    requires
        v.wf(),
        v.protocol_active,
        v.state == PacketState::Idle,
        v.packets_received == 0,
        data.len() == 16,
        data[0] % 8 <= 1,
    ensures
        ({
            let w = packet_pulsed(v, data);
            let done = command_executed(command_received(v, data));
            &&& w.attr_map == done.attr_map
            &&& w.palettes == done.palettes
            &&& w.mask_mode == done.mask_mode
            &&& w.player_count == done.player_count
            &&& w.current_player == done.current_player
            &&& w.pending_transfer == done.pending_transfer
            &&& w.pending_transfer_data == done.pending_transfer_data
            &&& w.transfer_countdown == done.transfer_countdown
            &&& w.state == PacketState::Idle
            &&& w.packets_received == 0
            &&& w.buf.len() == 0
            &&& w.pending_packets == if v.lle_mode {
                v.pending_packets.push(data)
            } else {
                v.pending_packets
            }
        }),
{
    assert(select_lines(0x00) == 0x00);
    assert(select_lines(0x20) == 0x20);
    assert(select_lines(0x30) == 0x30);
    let opened = p1_written(p1_written(v, 0x00), 0x30);
    assert(v.buf.len() == 0);
    assert(at_byte_start(opened) && opened.bit_count == 0 && opened.packets_received == 0);
    lemma_bytes_pulsed(opened, data, 16);
    let w = bytes_pulsed(opened, data, 16);
    assert(w.buf =~= data);
    assert(padded(data, 16) =~= data);
    assert(data.subrange(0, 16) =~= data);
    let c = command_received(v, data);
    lemma_command_keeps_receiver(c);
    reveal(pulsed);
    let w1 = SgbView { last_p1: 0x20, ..w };
    assert(p1_written(w, 0x20) == packet_finished(w1));
    assert(packet_completed(w1) == c);
    let e = packet_finished(w1);
    assert(p1_written(e, 0x30) == (SgbView { last_p1: 0x30, ..e }));
}

/// A packet that announces more packets carries nothing out; its bytes wait.
pub proof fn law_command_waits_for_its_packets(v: SgbView, data: Seq<u8>)
    requires
        v.wf(),
        v.protocol_active,
        v.state == PacketState::Idle,
        v.packets_received == 0,
        data.len() == 16,
        data[0] % 8 >= 2,
    ensures
        ({
            let w = packet_pulsed(v, data);
            &&& w.buf == data
            &&& w.packets_received == 1
            &&& w.expected_packets == data[0] % 8
            &&& w.attr_map == v.attr_map
            &&& w.palettes == v.palettes
            &&& w.mask_mode == v.mask_mode
            &&& w.player_count == v.player_count
            &&& w.pending_transfer == v.pending_transfer
        }),
{
    assert(select_lines(0x00) == 0x00);
    assert(select_lines(0x20) == 0x20);
    assert(select_lines(0x30) == 0x30);
    let opened = p1_written(p1_written(v, 0x00), 0x30);
    assert(v.buf.len() == 0);
    assert(at_byte_start(opened) && opened.bit_count == 0 && opened.packets_received == 0);
    lemma_bytes_pulsed(opened, data, 16);
    let w = bytes_pulsed(opened, data, 16);
    assert(w.buf =~= data);
    assert(padded(data, 16) =~= data);
    reveal(pulsed);
    let w1 = SgbView { last_p1: 0x20, ..w };
    assert(p1_written(w, 0x20) == packet_finished(w1));
    let e = packet_finished(w1);
    assert(e.last_p1 == 0x20 && e.state == PacketState::Idle);
    assert(p1_written(e, 0x30) == (SgbView { last_p1: 0x30, ..e }));
}

/// With several players, raising the second line outside a packet passes the turn
/// on, the last player's to the first.
pub proof fn law_players_take_turns(v: SgbView)
    requires
        v.wf(),
        v.in_range(),
        v.protocol_active,
        v.state == PacketState::Idle,
        v.last_p1 == 0x10,
    ensures
        p1_written(v, 0x20).current_player == if v.current_player + 1 < v.player_count {
            v.current_player + 1
        } else {
            0
        },
        p1_written(v, 0x30).current_player == p1_written(v, 0x20).current_player,
        p1_written(v, 0x10).current_player == v.current_player,
        p1_written(v, 0x00).current_player == v.current_player,
{
    assert(select_lines(0x00) == 0x00);
    assert(select_lines(0x10) == 0x10);
    assert(select_lines(0x20) == 0x20);
    assert(select_lines(0x30) == 0x30);
    let k = v.current_player + 1;
    let n = v.player_count as int;
    assert(k < n ==> k % n == k) by (nonlinear_arith)
        requires
            0 <= k,
            0 < n,
    ;
    assert(k == n ==> k % n == 0) by (nonlinear_arith)
        requires
            0 <= k,
            0 < n,
    ;
}

// ── Attribute commands ──

/// The same command with another number of data sets.
pub open spec fn with_sets(v: SgbView, n: u8) -> SgbView {
    SgbView { buf: v.buf.update(1, n), ..v }
}

proof fn lemma_block_prefix(g: Grid, a: Seq<u8>, b: Seq<u8>, n: nat)
    requires
        a.len() == b.len(),
        2 + 6 * n <= a.len(),
        forall|i: int| 2 <= i < a.len() ==> #[trigger] a[i] == b[i],
    ensures
        blocks_applied(g, a, n) == blocks_applied(g, b, n),
    decreases n,
{
    if n > 0 {
        lemma_block_prefix(g, a, b, (n - 1) as nat);
        assert(blocks_applied(g, a, n) =~~= blocks_applied(g, b, n));
    }
}

/// Set `n` of ATTR_BLK, with control byte `c`, palettes `d` and a rectangle: over
/// what the sets before it left, every tile strictly inside takes the palette in
/// the low two bits if bit 0 of `c` is set, every tile outside that in bits 4 and 5
/// if bit 2 is set, and every tile on the edge that in bits 2 and 3 if bit 1 is
/// set; without bit 1 the edge goes with the inside or the outside, if only one of
/// them is set. All other tiles keep their palette.
pub proof fn law_attr_blk(v: SgbView, n: u8, x: int, y: int)
    requires
        v.wf(),
        v.buf.len() >= 16,
        v.buf[0] as int / 8 == 0x04,
        1 <= n,
        v.buf[1] == n,
        2 + 6 * n <= v.buf.len(),
        0 <= x < 20,
        0 <= y < 18,
    ensures
        ({
            let before = command_executed(with_sets(v, (n - 1) as u8)).attr_map[y][x];
            let after = command_executed(v).attr_map[y][x];
            let base = 6 * n - 4;
            let c = v.buf[base] as int;
            let d = v.buf[base + 1] as int;
            let x1 = v.buf[base + 2] as int % 32;
            let y1 = v.buf[base + 3] as int % 32;
            let x2 = v.buf[base + 4] as int % 32;
            let y2 = v.buf[base + 5] as int % 32;
            let inside = x1 < x < x2 && y1 < y < y2;
            let outside = !(x1 <= x <= x2 && y1 <= y <= y2);
            let edge = !inside && !outside;
            &&& inside && c % 2 == 1 ==> after == d % 4
            &&& inside && c % 2 == 0 ==> after == before
            &&& outside && c / 4 % 2 == 1 ==> after == d / 16 % 4
            &&& outside && c / 4 % 2 == 0 ==> after == before
            &&& edge && c / 2 % 2 == 1 ==> after == d / 4 % 4
            &&& edge && c % 8 == 1 ==> after == d % 4
            &&& edge && c % 8 == 4 ==> after == d / 16 % 4
            &&& edge && (c % 8 == 0 || c % 8 == 5) ==> after == before
        }),
        n == 1 ==> command_executed(with_sets(v, 0)).attr_map == v.attr_map,
{
    reveal(command_executed);
    let u = with_sets(v, (n - 1) as u8);
    lemma_block_prefix(v.attr_map, v.buf, u.buf, (n - 1) as nat);
    let g = blocks_applied(v.attr_map, v.buf, (n - 1) as nat);
    assert(command_executed(u).attr_map == g);
    assert(command_executed(v).attr_map == blocks_applied(v.attr_map, v.buf, n as nat));
    let c = v.buf[6 * n - 4] as int;
    assert(c % 8 == c % 2 + 2 * (c / 2 % 2) + 4 * (c / 4 % 2));
}

/// One rectangle in one packet, from the line to the map: its inside, its edge and
/// what is around it take the three palettes that the control byte asks for.
pub proof fn law_attr_blk_packet(v: SgbView, data: Seq<u8>, x: int, y: int)
    requires
        v.wf(),
        v.protocol_active,
        v.state == PacketState::Idle,
        v.packets_received == 0,
        data.len() == 16,
        data[0] == 0x21,
        data[1] == 1,
        0 <= x < 20,
        0 <= y < 18,
    ensures
        ({
            let before = v.attr_map[y][x];
            let after = packet_pulsed(v, data).attr_map[y][x];
            let c = data[2] as int;
            let d = data[3] as int;
            let x1 = data[4] as int % 32;
            let y1 = data[5] as int % 32;
            let x2 = data[6] as int % 32;
            let y2 = data[7] as int % 32;
            let inside = x1 < x < x2 && y1 < y < y2;
            let outside = !(x1 <= x <= x2 && y1 <= y <= y2);
            let edge = !inside && !outside;
            &&& inside ==> after == if c % 2 == 1 {
                d % 4
            } else {
                before as int
            }
            &&& outside ==> after == if c / 4 % 2 == 1 {
                d / 16 % 4
            } else {
                before as int
            }
            &&& edge && c / 2 % 2 == 1 ==> after == d / 4 % 4
            &&& edge && c % 8 == 1 ==> after == d % 4
            &&& edge && c % 8 == 4 ==> after == d / 16 % 4
            &&& edge && (c % 8 == 0 || c % 8 == 5) ==> after == before
        }),
{
    law_packet_is_carried_out(v, data);
    let r = command_received(v, data);
    assert(data[0] as int / 8 == 0x04);
    lemma_one_block(r, x, y);
}

proof fn lemma_one_block(r: SgbView, x: int, y: int)
    requires
        r.buf.len() == 16,
        r.buf[0] as int / 8 == 0x04,
        r.buf[1] == 1,
        0 <= x < 20,
        0 <= y < 18,
    ensures
        command_executed(r).attr_map[y][x] == block_tile(
            r.buf,
            2,
            r.attr_map[y][x],
            y,
            x,
        ),
{
    reveal(command_executed);
    reveal_with_fuel(blocks_applied, 2);
    assert(block_count(r.buf) == 1);
}

proof fn lemma_line_prefix(g: Grid, a: Seq<u8>, b: Seq<u8>, n: nat)
    requires
        a.len() == b.len(),
        2 + n <= a.len(),
        forall|i: int| 2 <= i < a.len() ==> #[trigger] a[i] == b[i],
    ensures
        lines_applied(g, a, n) == lines_applied(g, b, n),
    decreases n,
{
    if n > 0 {
        lemma_line_prefix(g, a, b, (n - 1) as nat);
        assert(lines_applied(g, a, n) =~~= lines_applied(g, b, n));
    }
}

/// Byte `n` of ATTR_LIN gives one line of tiles, a row if its top bit is set and a
/// column if not, the palette in bits 5 and 6; the others stay as the bytes before
/// it left them.
pub proof fn law_attr_lin(v: SgbView, n: u8, x: int, y: int)
    requires
        v.wf(),
        v.buf.len() >= 16,
        v.buf[0] as int / 8 == 0x05,
        1 <= n,
        v.buf[1] == n,
        2 + n <= v.buf.len(),
        0 <= x < 20,
        0 <= y < 18,
    ensures
        ({
            let before = command_executed(with_sets(v, (n - 1) as u8)).attr_map[y][x];
            let after = command_executed(v).attr_map[y][x];
            let d = v.buf[n + 1] as int;
            let hit = if d >= 128 {
                y == d % 32
            } else {
                x == d % 32
            };
            &&& hit ==> after == d / 32 % 4
            &&& !hit ==> after == before
        }),
        n == 1 ==> command_executed(with_sets(v, 0)).attr_map == v.attr_map,
{
    reveal(command_executed);
    let u = with_sets(v, (n - 1) as u8);
    lemma_line_prefix(v.attr_map, v.buf, u.buf, (n - 1) as nat);
    let g = lines_applied(v.attr_map, v.buf, (n - 1) as nat);
    assert(command_executed(u).attr_map == g);
    assert(command_executed(v).attr_map == lines_applied(v.attr_map, v.buf, n as nat));
}

/// ATTR_DIV splits the map at a row (bit 6) or a column: the tiles before it take
/// the palette in bits 2 and 3, those on it that in bits 4 and 5, those behind it
/// that in bits 0 and 1.
pub proof fn law_attr_div(v: SgbView, x: int, y: int)
    requires
        v.wf(),
        v.buf.len() >= 16,
        v.buf[0] as int / 8 == 0x06,
        0 <= x < 20,
        0 <= y < 18,
    ensures
        ({
            let d = v.buf[1] as int;
            let line = v.buf[2] as int % 32;
            let where_ = if d / 64 % 2 == 1 {
                y
            } else {
                x
            };
            let after = command_executed(v).attr_map[y][x];
            &&& where_ < line ==> after == d / 4 % 4
            &&& where_ == line ==> after == d / 16 % 4
            &&& where_ > line ==> after == d % 4
        }),
{
    reveal(command_executed);
}

/// The palette number `i` of the packed bytes that start at `from`: four to a
/// byte, the first in the top bits.
pub open spec fn packed_palette(data: Seq<u8>, from: int, i: int) -> int {
    let b = data[from + i / 4] as int;
    if i % 4 == 0 {
        b / 64
    } else if i % 4 == 1 {
        b / 16 % 4
    } else if i % 4 == 2 {
        b / 4 % 4
    } else {
        b % 4
    }
}

/// The number of a tile in reading order, row by row or column by column.
pub open spec fn tile_number(x: int, y: int, by_rows: bool) -> int {
    if by_rows {
        20 * y + x
    } else {
        18 * x + y
    }
}

#[verifier::rlimit(40)]
proof fn lemma_tiles_applied(
    g: Grid,
    buf: Seq<u8>,
    y: int,
    x: int,
    i: int,
    n: nat,
    by_rows: bool,
    tx: int,
    ty: int,
)
    requires
        grid_wf(g),
        buf.len() >= 6,
        0 <= i,
        0 <= x <= 20,
        0 <= y <= 18,
        by_rows ==> x < 20,
        !by_rows ==> y < 18,
        0 <= tx < 20,
        0 <= ty < 18,
    ensures
        ({
            let k = i + tile_number(tx, ty, by_rows) - tile_number(x, y, by_rows);
            tiles_applied(g, buf, y, x, i, n, by_rows)[ty][tx] == if i <= k < i + n && 6 + k / 4
                < buf.len() {
                packed_palette(buf, 6, k)
            } else {
                g[ty][tx] as int
            }
        }),
    decreases n,
{
    let k = i + tile_number(tx, ty, by_rows) - tile_number(x, y, by_rows);
    if n == 0 || y >= 18 || x >= 20 || 6 + i / 4 >= buf.len() {
    } else {
        let (y1, x1) = next_tile(y, x, by_rows);
        let g1 = g.update(y, g[y].update(x, pair_of(buf[6 + i / 4], i % 4)));
        assert(grid_wf(g1));
        assert(tile_number(x1, y1, by_rows) == tile_number(x, y, by_rows) + 1);
        lemma_tiles_applied(g1, buf, y1, x1, i + 1, (n - 1) as nat, by_rows, tx, ty);
        if k == i {
            assert(tx == x && ty == y);
        } else {
            assert(!(tx == x && ty == y));
            assert(g1[ty][tx] == g[ty][tx]);
        }
    }
}

/// ATTR_CHR sets tiles in reading order from the given one on, row by row or, with
/// bit 0 of its fifth byte, column by column: as many as the command counts, as its
/// bytes hold and as there are up to the last tile. The others keep their palette.
pub proof fn law_attr_chr(v: SgbView, x: int, y: int)
    requires
        v.wf(),
        v.buf.len() >= 16,
        v.buf[0] as int / 8 == 0x07,
        v.buf[1] < 20,
        v.buf[2] < 18,
        0 <= x < 20,
        0 <= y < 18,
    ensures
        ({
            let by_rows = v.buf[5] % 2 == 0;
            let count = v.buf[3] + 0x100 * v.buf[4];
            let k = tile_number(x, y, by_rows) - tile_number(
                v.buf[1] as int,
                v.buf[2] as int,
                by_rows,
            );
            command_executed(v).attr_map[y][x] == if 0 <= k < count && 6 + k / 4 < v.buf.len() {
                packed_palette(v.buf, 6, k)
            } else {
                v.attr_map[y][x] as int
            }
        }),
{
    reveal(command_executed);
    lemma_tiles_applied(
        v.attr_map,
        v.buf,
        v.buf[2] as int,
        v.buf[1] as int,
        0,
        (v.buf[3] + 0x100 * v.buf[4]) as nat,
        v.buf[5] % 2 == 0,
        x,
        y,
    );
}

/// ATTR_CHR that starts off the map changes nothing.
pub proof fn law_attr_chr_off_the_map(v: SgbView)
    requires
        v.wf(),
        v.buf.len() >= 16,
        v.buf[0] as int / 8 == 0x07,
        v.buf[1] >= 20 || v.buf[2] >= 18,
    ensures
        command_executed(v) == v,
{
    reveal(command_executed);
}

/// ATTR_SET shows a stored file, four tiles to a byte row by row, and with bit 6
/// the picture again; a number beyond the last file changes no tile.
pub proof fn law_attr_set(v: SgbView, x: int, y: int)
    requires
        v.wf(),
        v.buf.len() >= 16,
        v.buf[0] as int / 8 == 0x16,
        0 <= x < 20,
        0 <= y < 18,
    ensures
        ({
            let file = v.buf[1] as int % 64;
            let w = command_executed(v);
            &&& w.attr_map[y][x] == if file < 45 {
                packed_palette(v.attr_files[file], 0, 20 * y + x)
            } else {
                v.attr_map[y][x] as int
            }
            &&& w.mask_mode == if v.buf[1] as int / 64 % 2 == 1 {
                0
            } else {
                v.mask_mode
            }
            &&& w.palettes == v.palettes
        }),
{
    reveal(command_executed);
}

// ── Palette commands ──

/// A color of a command: two bytes, the low one first.
pub open spec fn color_bytes(buf: Seq<u8>, i: int) -> int {
    buf[i] + 0x100 * buf[i + 1]
}

/// PAL01, PAL23, PAL03 and PAL12 set the two palettes of their name: the first
/// color of the command becomes color 0 of all palettes, the next three are colors
/// 1 to 3 of the first palette and the last three those of the second. The other
/// two palettes keep their colors 1 to 3.
pub proof fn law_palette_pair(v: SgbView, p: int, c: int)
    requires
        v.wf(),
        v.buf.len() >= 16,
        v.buf[0] as int / 8 <= 3,
        0 <= p < 4,
        0 <= c < 4,
    ensures
        ({
            let names = v.buf[0] as int / 8;
            let first = if names == 0 || names == 2 {
                0
            } else if names == 3 {
                1
            } else {
                2int
            };
            let second = if names == 0 {
                1
            } else if names == 3 {
                2
            } else {
                3int
            };
            let w = command_executed(v);
            &&& w.palettes[p][c] == if c == 0 {
                color_bytes(v.buf, 1)
            } else if p == first {
                color_bytes(v.buf, 1 + 2 * c)
            } else if p == second {
                color_bytes(v.buf, 7 + 2 * c)
            } else {
                v.palettes[p][c] as int
            }
            &&& w.attr_map == v.attr_map
        }),
{
    reveal(command_executed);
    assert(v.palettes[p].len() == 4);
}

/// PAL_SET takes each palette from the stored one whose number it gives, except
/// that color 0 is that of the first for all of them; with bit 7 of its ninth byte
/// it also shows a stored file, and with bit 6 the picture again.
pub proof fn law_palettes_are_set(v: SgbView, p: int, c: int, x: int, y: int)
    requires
        v.wf(),
        v.buf.len() >= 16,
        v.buf[0] as int / 8 == 0x0A,
        0 <= p < 4,
        0 <= c < 4,
        0 <= x < 20,
        0 <= y < 18,
    ensures
        ({
            let w = command_executed(v);
            let number = if c == 0 {
                color_bytes(v.buf, 1)
            } else {
                color_bytes(v.buf, 1 + 2 * p)
            };
            let flags = v.buf[9] as int;
            &&& w.palettes[p][c] == v.sys_palettes[4 * (number % 512) + c]
            &&& w.attr_map[y][x] == if flags >= 128 && flags % 64 < 45 {
                packed_palette(v.attr_files[flags % 64], 0, 20 * y + x)
            } else {
                v.attr_map[y][x] as int
            }
            &&& w.mask_mode == if flags / 64 % 2 == 1 {
                0
            } else {
                v.mask_mode
            }
        }),
{
    reveal(command_executed);
}

// ── Other commands ──

/// MLT_REQ asks for one, two or four players and gives the first one the turn;
/// MASK_EN sets what is shown; the four transfer commands are due two frames later,
/// CHR_TRN with the half that it names; and what is not a command here changes
/// nothing. None of them touches palettes or tiles.
pub proof fn law_other_commands(v: SgbView)
    requires
        v.wf(),
        v.buf.len() >= 16,
        v.buf[0] as int / 8 > 7,
        v.buf[0] as int / 8 != 0x0A,
        v.buf[0] as int / 8 != 0x16,
    ensures
        ({
            let w = command_executed(v);
            let cmd = v.buf[0] as int / 8;
            let arg = v.buf[1] as int;
            let transfer = cmd == 0x0B || cmd == 0x13 || cmd == 0x14 || cmd == 0x15;
            &&& w.palettes == v.palettes
            &&& w.attr_map == v.attr_map
            &&& cmd == 0x11 ==> w.current_player == 0 && w.player_count == if arg % 4 == 1 {
                2
            } else if arg % 4 == 3 {
                4
            } else {
                1int
            }
            &&& cmd != 0x11 ==> w.player_count == v.player_count && w.current_player
                == v.current_player
            &&& w.mask_mode == if cmd == 0x17 {
                arg % 4
            } else {
                v.mask_mode as int
            }
            &&& transfer ==> w.pending_transfer == Some(cmd as u8) && w.transfer_countdown == 2
            &&& transfer ==> transfer_ticked(w).transfer_countdown == 1 && transfer_ticked(
                transfer_ticked(w),
            ).transfer_countdown == 0
            &&& cmd == 0x13 ==> w.pending_transfer_data == arg % 2
            &&& !transfer && cmd != 0x11 && cmd != 0x17 ==> w == v
        }),
{
    reveal(command_executed);
}

// ── Transfers ──

/// A transfer of a full block of 4096 bytes stores: the system palettes, word by
/// word; the lower or upper half of the border tiles, byte by byte; the border map,
/// with its palettes from byte 2048 on; or the attribute files of 90 bytes. Nothing
/// is pending afterwards, and what the other kinds store stays.
pub proof fn law_transfer_stores_its_block(v: SgbView, data: Seq<u8>, command: u8)
    requires
        v.wf(),
        v.pending_transfer == Some(command),
        data.len() == 4096,
        v.border_tiles.len() == 8192,
    ensures
        ({
            let w = transfer_executed(v, data);
            &&& w.pending_transfer is None
            &&& forall|i: int|
                0 <= i < 2048 ==> #[trigger] w.sys_palettes[i] == if command == 0x0B {
                    color_bytes(data, 2 * i)
                } else {
                    v.sys_palettes[i] as int
                }
            &&& forall|i: int|
                0 <= i < 8192 ==> #[trigger] w.border_tiles[i] == if command == 0x13 && i / 4096 == (
                if v.pending_transfer_data == 0 {
                    0int
                } else {
                    1int
                }) {
                    data[i % 4096]
                } else {
                    v.border_tiles[i]
                }
            &&& forall|i: int|
                0 <= i < 896 ==> #[trigger] w.border_map[i] == if command == 0x14 {
                    color_bytes(data, 2 * i)
                } else {
                    v.border_map[i] as int
                }
            &&& forall|p: int, c: int|
                0 <= p < 4 && 0 <= c < 16 ==> #[trigger] w.border_palettes[p][c] == if command
                    == 0x14 {
                    color_bytes(data, 2048 + 32 * p + 2 * c)
                } else {
                    v.border_palettes[p][c] as int
                }
            &&& forall|f: int, b: int|
                0 <= f < 45 && 0 <= b < 90 ==> #[trigger] w.attr_files[f][b] == if command == 0x15 {
                    data[90 * f + b]
                } else {
                    v.attr_files[f][b]
                }
            &&& w.border_dirty == (v.border_dirty || command == 0x13 || command == 0x14)
            &&& w.palettes == v.palettes
            &&& w.attr_map == v.attr_map
        }),
{
    let w = transfer_executed(v, data);
    assert forall|i: int| 0 <= i < 8192 implies #[trigger] w.border_tiles[i] == if command == 0x13
        && i / 4096 == (if v.pending_transfer_data == 0 {
        0int
    } else {
        1int
    }) {
        data[i % 4096]
    } else {
        v.border_tiles[i]
    } by {
        assert(w.border_tiles == if command == 0x13 {
            tiles_loaded(v.border_tiles, data, v.pending_transfer_data != 0)
        } else {
            v.border_tiles
        });
    }
    assert(command == 0x0B ==> w.sys_palettes == palettes_loaded(v.sys_palettes, data));
    assert(command == 0x14 ==> w.border_map == map_loaded(v.border_map, data));
    assert(command == 0x14 ==> w.border_palettes == border_palettes_loaded(
        v.border_palettes,
        data,
    ));
    assert(command == 0x15 ==> w.attr_files == files_loaded(v.attr_files, data));
}

// ── Pictures ──

/// A color of five bits a channel, red lowest, is shown with red in the top byte
/// of three, each channel stretched so that 31 becomes 255.
pub proof fn law_colors_are_stretched(r: int, g: int, b: int)
    requires
        0 <= r < 32,
        0 <= g < 32,
        0 <= b < 32,
    ensures
        ({
            let shown = rgb32((r + 32 * g + 1024 * b) as u16) as int;
            &&& shown / 0x1_0000 == r * 255 / 31 || shown / 0x1_0000 == r * 255 / 31 + 1
            &&& shown / 0x100 % 0x100 == g * 255 / 31 || shown / 0x100 % 0x100 == g * 255 / 31 + 1
            &&& shown % 0x100 == b * 255 / 31 || shown % 0x100 == b * 255 / 31 + 1
        }),
{
    let c = (r + 32 * g + 1024 * b) as u16;
    assert(c as int % 32 == r);
    assert(c as int / 32 % 32 == g);
    assert(c as int / 1024 % 32 == b);
    lemma_stretched(r);
    lemma_stretched(g);
    lemma_stretched(b);
    let x = r * 8 + r / 4;
    let y = g * 8 + g / 4;
    let z = b * 8 + b / 4;
    lemma_three_channels(x, y, z);
}

proof fn lemma_three_channels(x: int, y: int, z: int)
    requires
        0 <= x <= 255,
        0 <= y <= 255,
        0 <= z <= 255,
    ensures
        (x * 0x1_0000 + y * 0x100 + z) / 0x1_0000 == x,
        (x * 0x1_0000 + y * 0x100 + z) / 0x100 % 0x100 == y,
        (x * 0x1_0000 + y * 0x100 + z) % 0x100 == z,
{
    assert((x * 0x1_0000 + y * 0x100 + z) / 0x100 == x * 0x100 + y);
}

proof fn lemma_stretched(k: int)
    requires
        0 <= k < 32,
    ensures
        0 <= k * 8 + k / 4 <= 255,
        k * 8 + k / 4 == k * 255 / 31 || k * 8 + k / 4 == k * 255 / 31 + 1,
{
}

/// A pixel of the game takes the color that its shade has in the palette of the
/// tile of eight by eight pixels in which it stands.
pub proof fn law_game_pixel(v: SgbView, shades: Seq<u8>, x: int, y: int)
    requires
        v.wf(),
        v.in_range(),
        shades.len() == 160 * 144,
        0 <= x < 160,
        0 <= y < 144,
        shades[160 * y + x] < 4,
    ensures
        game_pixel(v, shades, 160 * y + x) == rgb32(
            v.palettes[v.attr_map[y / 8][x / 8] as int][shades[160 * y + x] as int],
        ),
{
    let i = 160 * y + x;
    assert(i / 160 == y && i % 160 == x);
    assert(v.attr_map[y / 8][x / 8] < 4);
}

/// Bit `k` of a byte, the lowest being bit 0.
pub open spec fn bit_at(b: u8, k: int) -> int {
    if k == 0 {
        b as int % 2
    } else if k == 1 {
        b as int / 2 % 2
    } else if k == 2 {
        b as int / 4 % 2
    } else if k == 3 {
        b as int / 8 % 2
    } else if k == 4 {
        b as int / 16 % 2
    } else if k == 5 {
        b as int / 32 % 2
    } else if k == 6 {
        b as int / 64 % 2
    } else {
        b as int / 128
    }
}

/// A pixel of the border: its map entry names a tile in the low byte, the palette
/// in bits 10 and 11, and mirrors the tile across with bit 14 and upside down with
/// bit 15. Four planes of the tile give the color, the leftmost pixel in the top
/// bits; color 0 shows nothing.
pub proof fn law_border_pixel(v: SgbView, x: int, y: int)
    requires
        v.wf(),
        v.border_tiles.len() == 8192,
        0 <= x < 256,
        0 <= y < 224,
    ensures
        ({
            let entry = v.border_map[32 * (y / 8) + x / 8] as int;
            let column = if entry / 0x4000 % 2 == 1 {
                7 - x % 8
            } else {
                x % 8
            };
            let row = if entry / 0x8000 == 1 {
                7 - y % 8
            } else {
                y % 8
            };
            let at = 32 * (entry % 256) + 2 * row;
            let color = bit_at(v.border_tiles[at], 7 - column) + 2 * bit_at(
                v.border_tiles[at + 1],
                7 - column,
            ) + 4 * bit_at(v.border_tiles[at + 16], 7 - column) + 8 * bit_at(
                v.border_tiles[at + 17],
                7 - column,
            );
            border_pixel(v, 256 * y + x) == if color == 0 {
                0
            } else {
                rgb32(v.border_palettes[entry / 1024 % 4][color])
            }
        }),
{
    let i = 256 * y + x;
    assert(i / 256 == y && i % 256 == x);
}

/// The game stands in the middle of the border, 48 pixels from the left and 40
/// from the top, and covers nothing else.
pub proof fn law_game_stands_in_the_border(border: Seq<u32>, game: Seq<u32>, x: int, y: int)
    requires
        border.len() == 256 * 224,
        game.len() == 160 * 144,
        0 <= x < 256,
        0 <= y < 224,
    ensures
        composited(border, game)[256 * y + x] == if 0 <= x - 48 < 160 && 0 <= y - 40 < 144 {
            game[160 * (y - 40) + (x - 48)]
        } else {
            border[256 * y + x]
        },
{
    let i = 256 * y + x;
    assert(i / 256 == y && i % 256 == x);
}

} // verus!
