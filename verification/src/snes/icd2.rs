//! ICD2 bridge between the Game Boy and the SNES.
//!
//! The chip captures the Game Boy picture as rows of 2bpp tiles in a ring of
//! four slots of 512 bytes, buffers command packets, and relays joypad data.
//!
//! | Address       |   | Meaning                                          |
//! |---------------|---|--------------------------------------------------|
//! | $6000         | R | tile row being drawn, and the slot it belongs to |
//! | $6001         | W | select the slot to read and rewind               |
//! | $6002         | R | bit 0: command packet available                  |
//! | $6003         | W | control                                          |
//! | $6004-$6007   | W | joypad data of players 1-4                       |
//! | $7000-$700F   | R | last command packet                              |
//! | $7800-$7FFF   | R | pixel data stream                                |

use vstd::prelude::*;

use crate::bytes::{copied, zeroed};

verus! {

/// Tile rows of a frame, and bytes of one row of 20 tiles.
pub const TILE_ROWS: usize = 18;
pub const ROW_BYTES: usize = 320;
pub const SLOT_BYTES: usize = 512;
/// Row shown while the Game Boy is in vertical blank.
pub const VBLANK_ROW: u8 = 0x11;

/// State of the bridge.
pub struct Icd2 {
    /// Ring of four slots; 320 bytes of each are used.
    pub output: Vec<u8>,
    /// Slot being written.
    pub write_bank: u8,
    /// Slot being read.
    pub read_bank: u8,
    /// Position in the slot being read.
    pub read_address: u16,
    /// All tile rows of the last frame.
    pub all_rows: Vec<u8>,
    /// Next tile row for a slot that is refilled.
    pub next_row: usize,
    pub slots_read: u8,
    pub packet_data: [u8; 16],
    pub packet_ready: bool,
    /// Joypad data of the four players.
    pub joy_data: [u16; 4],
    pub control: u8,
    pub current_tile_row: u8,
}

/// Mathematical state of the bridge.
#[verifier::ext_equal]
pub struct Icd2View {
    pub output: Seq<u8>,
    pub write_bank: u8,
    pub read_bank: u8,
    pub read_address: u16,
    pub all_rows: Seq<u8>,
    pub next_row: int,
    pub slots_read: u8,
    pub packet_data: Seq<u8>,
    pub packet_ready: bool,
    pub joy_data: Seq<u16>,
    pub control: u8,
    pub current_tile_row: u8,
}

impl View for Icd2 {
    type V = Icd2View;

    open spec fn view(&self) -> Icd2View {
        Icd2View {
            output: self.output@,
            write_bank: self.write_bank,
            read_bank: self.read_bank,
            read_address: self.read_address,
            all_rows: self.all_rows@,
            next_row: self.next_row as int,
            slots_read: self.slots_read,
            packet_data: self.packet_data@,
            packet_ready: self.packet_ready,
            joy_data: self.joy_data@,
            control: self.control,
            current_tile_row: self.current_tile_row,
        }
    }
}

impl Icd2View {
    pub open spec fn wf(self) -> bool {
        &&& self.output.len() == 4 * SLOT_BYTES
        &&& self.all_rows.len() == TILE_ROWS * ROW_BYTES
        &&& self.packet_data.len() == 16
        &&& self.joy_data.len() == 4
        &&& self.write_bank < 4
        &&& self.read_bank < 4
        &&& self.read_address < SLOT_BYTES
        &&& self.next_row <= TILE_ROWS
    }
}

pub open spec fn icd2_initial() -> Icd2View {
    Icd2View {
        output: Seq::new((4 * SLOT_BYTES) as nat, |i: int| 0u8),
        write_bank: 0,
        read_bank: 0,
        read_address: 0,
        all_rows: Seq::new((TILE_ROWS * ROW_BYTES) as nat, |i: int| 0u8),
        next_row: 0,
        slots_read: 0,
        packet_data: Seq::new(16, |i: int| 0u8),
        packet_ready: false,
        joy_data: Seq::new(4, |i: int| 0u16),
        control: 0,
        current_tile_row: VBLANK_ROW,
    }
}

/// Shade (0-3) of a pixel of the 160-pixel-wide picture; missing pixels are 0.
pub open spec fn shade_at(shades: Seq<u8>, x: int, y: int) -> int {
    let i = y * 160 + x;
    if i < shades.len() {
        shades[i] as int % 4
    } else {
        0
    }
}

/// One bit of a shade: plane 0 is the low bit, plane 1 the high bit.
pub open spec fn shade_bit(shades: Seq<u8>, x: int, y: int, plane: int) -> int {
    if plane == 0 {
        shade_at(shades, x, y) % 2
    } else {
        shade_at(shades, x, y) / 2
    }
}

/// Bit plane of the `n` pixels from `x`, the leftmost in the highest bit.
pub open spec fn plane_bits(shades: Seq<u8>, x: int, y: int, plane: int, n: nat) -> int
    decreases n,
{
    if n == 0 {
        0
    } else {
        2 * plane_bits(shades, x, y, plane, (n - 1) as nat) + shade_bit(
            shades,
            x + n - 1,
            y,
            plane,
        )
    }
}

/// Byte `k` of the tile rows of a picture: row `k / 320`, in it tile
/// `k % 320 / 16`, and in that tile line `k % 16 / 2` of plane `k % 2`.
pub open spec fn tile_byte(shades: Seq<u8>, k: int) -> u8 {
    plane_bits(
        shades,
        k % 320 / 16 * 8,
        k / 320 * 8 + k % 16 / 2,
        k % 2,
        8,
    ) as u8
}

pub open spec fn tile_rows(shades: Seq<u8>) -> Seq<u8> {
    Seq::new((TILE_ROWS * ROW_BYTES) as nat, |k: int| tile_byte(shades, k))
}

/// The ring after a slot was loaded with a tile row and padded with zeros.
pub open spec fn slot_filled(output: Seq<u8>, rows: Seq<u8>, slot: int, row: int) -> Seq<u8> {
    Seq::new(
        output.len(),
        |k: int|
            if k / 512 != slot {
                output[k]
            } else if k % 512 < ROW_BYTES {
                rows[row * ROW_BYTES + k % 512]
            } else {
                0
            },
    )
}

/// The ring after a new picture: slot `i` holds tile row `i`.
pub open spec fn ring_loaded(rows: Seq<u8>) -> Seq<u8> {
    Seq::new(
        (4 * SLOT_BYTES) as nat,
        |k: int|
            if k % 512 < ROW_BYTES {
                rows[k / 512 * ROW_BYTES + k % 512]
            } else {
                0
            },
    )
}

/// The bridge after a new picture.
pub open spec fn scanlines_fed(v: Icd2View, shades: Seq<u8>) -> Icd2View {
    Icd2View {
        all_rows: tile_rows(shades),
        output: ring_loaded(tile_rows(shades)),
        next_row: 4,
        write_bank: 0,
        slots_read: 0,
        current_tile_row: VBLANK_ROW,
        ..v
    }
}

pub open spec fn packet_fed(v: Icd2View, data: Seq<u8>) -> Icd2View {
    Icd2View { packet_data: data, packet_ready: true, ..v }
}

/// The bridge after the Game Boy reached a tile row: entering a new row other
/// than the first stores the row before it and moves on to the next slot.
pub open spec fn tile_row_set(v: Icd2View, row: u8) -> Icd2View {
    if 0 < row < 18 && row != v.current_tile_row {
        Icd2View {
            current_tile_row: row,
            output: slot_filled(v.output, v.all_rows, v.write_bank as int, row - 1),
            write_bank: ((v.write_bank + 1) % 4) as u8,
            ..v
        }
    } else {
        Icd2View { current_tile_row: row, ..v }
    }
}

/// Byte that a register read returns.
pub open spec fn icd2_read(v: Icd2View, addr: u16) -> u8 {
    if addr == 0x6000 {
        (v.current_tile_row * 8 % 0x100 + v.write_bank) as u8
    } else if addr == 0x6002 {
        if v.packet_ready {
            1
        } else {
            0
        }
    } else if addr == 0x6003 {
        v.control
    } else if 0x7000 <= addr <= 0x700F {
        v.packet_data[addr - 0x7000]
    } else if 0x7800 <= addr <= 0x7FFF {
        v.output[v.read_bank * 512 + v.read_address]
    } else {
        0
    }
}

/// The bridge after a register read: the last packet byte retires the packet,
/// and the pixel stream advances within its slot.
pub open spec fn icd2_after_read(v: Icd2View, addr: u16) -> Icd2View {
    if addr == 0x700F {
        Icd2View { packet_ready: false, ..v }
    } else if 0x7800 <= addr <= 0x7FFF {
        Icd2View { read_address: ((v.read_address + 1) % 512) as u16, ..v }
    } else {
        v
    }
}

/// The bridge after a register write. A joypad byte goes to the low half of its
/// player's word.
pub open spec fn icd2_write(v: Icd2View, addr: u16, val: u8) -> Icd2View {
    if addr == 0x6001 {
        Icd2View { read_bank: (val % 4) as u8, read_address: 0, ..v }
    } else if addr == 0x6003 {
        Icd2View { control: val, ..v }
    } else if 0x6004 <= addr <= 0x6007 {
        let i = addr - 0x6004;
        let word = v.joy_data[i] / 0x100 * 0x100 + val;
        Icd2View { joy_data: v.joy_data.update(i, word as u16), ..v }
    } else {
        v
    }
}

impl Clone for Icd2 {
    fn clone(&self) -> (r: Self)
        ensures
            r@ == self@,
    {
        Icd2 {
            output: copied(&self.output),
            write_bank: self.write_bank,
            read_bank: self.read_bank,
            read_address: self.read_address,
            all_rows: copied(&self.all_rows),
            next_row: self.next_row,
            slots_read: self.slots_read,
            packet_data: self.packet_data,
            packet_ready: self.packet_ready,
            joy_data: self.joy_data,
            control: self.control,
            current_tile_row: self.current_tile_row,
        }
    }
}

/// Number of values of `n` bits.
spec fn values_of(n: nat) -> int
    decreases n,
{
    if n == 0 {
        1
    } else {
        2 * values_of((n - 1) as nat)
    }
}

proof fn lemma_plane_bits(shades: Seq<u8>, x: int, y: int, plane: int, n: nat)
    requires
        plane == 0 || plane == 1,
    ensures
        0 <= plane_bits(shades, x, y, plane, n) < values_of(n),
    decreases n,
{
    if n > 0 {
        lemma_plane_bits(shades, x, y, plane, (n - 1) as nat);
        assert(0 <= shade_bit(shades, x + n - 1, y, plane) <= 1);
    }
}

proof fn lemma_plane_bits_bound(shades: Seq<u8>, x: int, y: int, plane: int, n: nat)
    requires
        n <= 8,
        plane == 0 || plane == 1,
    ensures
        0 <= plane_bits(shades, x, y, plane, n) <= 255,
        n < 8 ==> plane_bits(shades, x, y, plane, n) <= 127,
{
    lemma_plane_bits(shades, x, y, plane, n);
    assert(values_of(n) <= 256 && (n < 8 ==> values_of(n) <= 128)) by {
        reveal_with_fuel(values_of, 9);
    }
}

impl Icd2 {
    /// The bridge after power-on, in vertical blank.
    pub fn new() -> (r: Self)
        ensures
            r@ == icd2_initial(),
            r@.wf(),
    {
        let r = Icd2 {
            output: zeroed(4 * SLOT_BYTES),
            write_bank: 0,
            read_bank: 0,
            read_address: 0,
            all_rows: zeroed(TILE_ROWS * ROW_BYTES),
            next_row: 0,
            slots_read: 0,
            packet_data: [0u8;16],
            packet_ready: false,
            joy_data: [0u16;4],
            control: 0,
            current_tile_row: VBLANK_ROW,
        };
        assert(r@ =~= icd2_initial());
        r
    }

    /// Hand over a command packet from the Game Boy.
    pub fn feed_packet(&mut self, data: &[u8; 16])
        ensures
            final(self)@ == packet_fed(old(self)@, data@),
    {
        self.packet_data = *data;
        self.packet_ready = true;
    }

    /// One tile line of one bit plane.
    fn plane_byte(shade_buf: &[u8], x: usize, y: usize, plane: usize) -> (b: u8)
        requires
            x <= 152,
            y < 144,
            plane <= 1,
        ensures
            b == plane_bits(shade_buf@, x as int, y as int, plane as int, 8),
    {
        let mut b: u8 = 0;
        let mut px: usize = 0;
        while px < 8
            invariant
                px <= 8,
                x <= 152,
                y < 144,
                plane <= 1,
                b == plane_bits(shade_buf@, x as int, y as int, plane as int, px as nat),
                px < 8 ==> b <= 127,
            decreases 8 - px,
        {
            let i: usize = y * 160 + x + px;
            let shade: u8 = if i < shade_buf.len() {
                shade_buf[i] % 4
            } else {
                0
            };
            let bit: u8 = if plane == 0 {
                shade % 2
            } else {
                shade / 2
            };
            proof {
                lemma_plane_bits_bound(
                    shade_buf@,
                    x as int,
                    y as int,
                    plane as int,
                    (px + 1) as nat,
                );
            }
            b = 2 * b + bit;
            px = px + 1;
        }
        b
    }

    /// Take a full picture of 160x144 shades. It is cut into tile rows, and
    /// the first four rows are loaded into the ring.
    pub fn feed_scanlines(&mut self, shade_buf: &[u8])
        requires
            old(self)@.wf(),
        ensures
            final(self)@ == scanlines_fed(old(self)@, shade_buf@),
            final(self)@.wf(),
    {
        let mut rows: Vec<u8> = Vec::new();
        while rows.len() < TILE_ROWS * ROW_BYTES
            invariant
                rows.len() <= TILE_ROWS * ROW_BYTES,
                forall|k: int| 0 <= k < rows.len() ==> rows@[k] == tile_byte(shade_buf@, k),
            decreases TILE_ROWS * ROW_BYTES - rows.len(),
        {
            let k: usize = rows.len();
            let b: u8 = Self::plane_byte(
                shade_buf,
                k % 320 / 16 * 8,
                k / 320 * 8 + k % 16 / 2,
                k % 2,
            );
            rows.push(b);
        }
        assert(rows@ =~= tile_rows(shade_buf@));
        self.all_rows = rows;
        self.next_row = 0;
        self.write_bank = 0;
        self.slots_read = 0;
        self.current_tile_row = VBLANK_ROW;
        self.fill_slot(0);
        self.fill_slot(1);
        self.fill_slot(2);
        self.fill_slot(3);
        assert(self.output@ =~= ring_loaded(tile_rows(shade_buf@)));
    }

    /// Show a tile row in $6000, storing the row that was just completed.
    pub fn set_tile_row(&mut self, row: u8)
        requires
            old(self)@.wf(),
        ensures
            final(self)@ == tile_row_set(old(self)@, row),
            final(self)@.wf(),
    {
        let old_row: u8 = self.current_tile_row;
        self.current_tile_row = row;
        if row < 18 && row != old_row && row > 0 {
            self.fill_slot_with(self.write_bank as usize, row as usize - 1);
            self.write_bank = (self.write_bank + 1) % 4;
        }
    }

    /// Load a ring slot with a tile row.
    fn fill_slot_with(&mut self, slot: usize, row: usize)
        requires
            old(self)@.wf(),
            slot < 4,
            row < TILE_ROWS,
        ensures
            final(self)@ == (Icd2View {
                output: slot_filled(old(self)@.output, old(self)@.all_rows, slot as int, row as int),
                ..old(self)@
            }),
    {
        let ghost before = self@;
        let mut i: usize = 0;
        while i < SLOT_BYTES
            invariant
                i <= SLOT_BYTES,
                slot < 4,
                row < TILE_ROWS,
                before.wf(),
                self@ == (Icd2View { output: self@.output, ..before }),
                self@.output.len() == before.output.len(),
                forall|k: int|
                    0 <= k < self@.output.len() ==> #[trigger] self@.output[k] == (if slot * 512
                        <= k < slot * 512 + i {
                        slot_filled(before.output, before.all_rows, slot as int, row as int)[k]
                    } else {
                        before.output[k]
                    }),
            decreases SLOT_BYTES - i,
        {
            let b: u8 = if i < ROW_BYTES {
                self.all_rows[row * ROW_BYTES + i]
            } else {
                0
            };
            self.output[slot * SLOT_BYTES + i] = b;
            i = i + 1;
        }
        assert(self@.output =~= slot_filled(
            before.output,
            before.all_rows,
            slot as int,
            row as int,
        ));
    }

    /// Load a ring slot with the next tile row, if any is left.
    fn fill_slot(&mut self, slot: usize)
        requires
            old(self)@.wf(),
            slot < 4,
        ensures
            final(self)@.wf(),
            final(self)@ == (if old(self)@.next_row < TILE_ROWS {
                Icd2View {
                    output: slot_filled(
                        old(self)@.output,
                        old(self)@.all_rows,
                        slot as int,
                        old(self)@.next_row,
                    ),
                    next_row: old(self)@.next_row + 1,
                    ..old(self)@
                }
            } else {
                old(self)@
            }),
    {
        if self.next_row < TILE_ROWS {
            self.fill_slot_with(slot, self.next_row);
            self.next_row = self.next_row + 1;
        }
    }

    /// Read a register from the SNES side.
    pub fn read(&mut self, addr: u16) -> (v: u8)
        requires
            old(self)@.wf(),
        ensures
            v == icd2_read(old(self)@, addr),
            final(self)@ == icd2_after_read(old(self)@, addr),
            final(self)@.wf(),
    {
        match addr {
            0x6000 => {
                let row: u16 = self.current_tile_row as u16;
                (row * 8 % 0x100) as u8 + self.write_bank
            },
            0x6002 => {
                if self.packet_ready {
                    1
                } else {
                    0
                }
            },
            0x6003 => self.control,
            0x7000..=0x700F => {
                let v: u8 = self.packet_data[(addr - 0x7000) as usize];
                if addr == 0x700F {
                    self.packet_ready = false;
                }
                v
            },
            0x7800..=0x7FFF => {
                let v: u8 = self.output[self.read_bank as usize * SLOT_BYTES
                    + self.read_address as usize];
                self.read_address = (self.read_address + 1) % 512;
                v
            },
            _ => 0,
        }
    }

    /// Write a register from the SNES side.
    pub fn write(&mut self, addr: u16, val: u8)
        requires
            old(self)@.wf(),
        ensures
            final(self)@ == icd2_write(old(self)@, addr, val),
            final(self)@.wf(),
    {
        match addr {
            0x6001 => {
                self.read_bank = val % 4;
                self.read_address = 0;
            },
            0x6003 => {
                self.control = val;
            },
            0x6004..=0x6007 => {
                let i: usize = addr as usize - 0x6004;
                self.joy_data[i] = self.joy_data[i] / 0x100 * 0x100 + val as u16;
            },
            _ => {},
        }
    }
}

// ── Laws ──

/// The bridge after `n` reads of the pixel stream.
pub open spec fn after_reads(v: Icd2View, n: nat) -> Icd2View
    decreases n,
{
    if n == 0 {
        v
    } else {
        icd2_after_read(after_reads(v, (n - 1) as nat), 0x7800)
    }
}

proof fn lemma_after_reads(v: Icd2View, n: nat)
    requires
        v.read_address == 0,
        n <= 512,
    ensures
        after_reads(v, n) == (Icd2View { read_address: (n % 512) as u16, ..v }),
    decreases n,
{
    if n > 0 {
        lemma_after_reads(v, (n - 1) as nat);
    }
}

/// After a new picture, selecting one of the four slots and reading the stream
/// gives the tile row of that number byte by byte, and zeros after it.
pub proof fn law_tile_rows_stream_out(v: Icd2View, shades: Seq<u8>, slot: u8, n: nat)
    requires
        v.wf(),
        slot < 4,
        n < 512,
    ensures
        icd2_read(after_reads(icd2_write(scanlines_fed(v, shades), 0x6001, slot), n), 0x7800)
            == if n < ROW_BYTES {
            tile_byte(shades, slot * ROW_BYTES + n)
        } else {
            0
        },
{
    let w = icd2_write(scanlines_fed(v, shades), 0x6001, slot);
    lemma_after_reads(w, n);
    let k = slot * 512 + n;
    assert(k / 512 == slot && k % 512 == n);
}

/// The bridge after the Game Boy drew rows 0 to `n - 1` of its picture.
pub open spec fn rows_drawn(v: Icd2View, n: nat) -> Icd2View
    decreases n,
{
    if n == 0 {
        v
    } else {
        tile_row_set(rows_drawn(v, (n - 1) as nat), (n - 1) as u8)
    }
}

/// The ring holds row `q` in its slot.
pub open spec fn slot_holds(v: Icd2View, rows: Seq<u8>, q: int) -> bool {
    forall|k: int|
        0 <= k < ROW_BYTES ==> #[trigger] v.output[q % 4 * 512 + k] == rows[q * ROW_BYTES + k]
}

proof fn lemma_slot_kept(output: Seq<u8>, rows: Seq<u8>, slot: int, row: int, other: int, k: int)
    requires
        output.len() == 4 * SLOT_BYTES,
        0 <= slot < 4,
        0 <= other < 4,
        0 <= k < ROW_BYTES,
    ensures
        slot_filled(output, rows, slot, row)[other * 512 + k] == if other == slot {
            rows[row * ROW_BYTES + k]
        } else {
            output[other * 512 + k]
        },
{
    let i = other * 512 + k;
    assert(i / 512 == other && i % 512 == k);
}

proof fn lemma_slot_advances(before: Icd2View, rows: Seq<u8>, r: int, q: int)
    requires
        0 < r < 18,
        0 <= q,
        r - 4 <= q < r,
        before.current_tile_row == r - 1,
        before.write_bank == (r - 1) % 4,
        before.all_rows == rows,
        before.output.len() == 4 * SLOT_BYTES,
        q != r - 1 ==> slot_holds(before, rows, q),
    ensures
        slot_holds(tile_row_set(before, r as u8), rows, q),
{
    let w = tile_row_set(before, r as u8);
    assert forall|k: int| 0 <= k < ROW_BYTES implies #[trigger] w.output[q % 4 * 512 + k]
        == rows[q * ROW_BYTES + k] by {
        lemma_slot_kept(before.output, rows, (r - 1) % 4, r - 1, q % 4, k);
        assert(q != r - 1 ==> q % 4 != (r - 1) % 4);
    }
}

/// While the Game Boy draws a new picture row by row, $6000 names the row and
/// the slot that is being filled, and the ring holds the last four completed
/// rows.
pub proof fn law_status_names_row_and_slot(v: Icd2View, shades: Seq<u8>, r: nat)
    requires
        v.wf(),
        r < 18,
    ensures
        ({
            let w = rows_drawn(scanlines_fed(v, shades), r + 1);
            &&& w.current_tile_row == r
            &&& w.write_bank == r % 4
            &&& icd2_read(w, 0x6000) == 8 * r + w.write_bank
            &&& forall|q: int|
                0 <= q && r - 4 <= q < r ==> #[trigger] slot_holds(w, tile_rows(shades), q)
        }),
    decreases r,
{
    let f = scanlines_fed(v, shades);
    let rows = tile_rows(shades);
    let before = rows_drawn(f, r);
    let w = rows_drawn(f, r + 1);
    assert(w == tile_row_set(before, r as u8));
    if r == 0 {
        assert(before == f);
    } else {
        law_status_names_row_and_slot(v, shades, (r - 1) as nat);
        lemma_rows_stay(f, r);
        assert forall|q: int| 0 <= q && r - 4 <= q < r implies #[trigger] slot_holds(w, rows, q) by {
            assert(q != r - 1 ==> slot_holds(before, rows, q));
            lemma_slot_advances(before, rows, r as int, q);
        }
    }
}

proof fn lemma_rows_stay(v: Icd2View, n: nat)
    ensures
        rows_drawn(v, n).all_rows == v.all_rows,
        rows_drawn(v, n).output.len() == v.output.len(),
    decreases n,
{
    if n > 0 {
        lemma_rows_stay(v, (n - 1) as nat);
    }
}

/// A packet reads back byte by byte, and is there until its last byte is read.
pub proof fn law_packet_reads_back(v: Icd2View, data: Seq<u8>, i: int)
    requires
        v.wf(),
        data.len() == 16,
        0 <= i < 16,
    ensures
        ({
            let p = packet_fed(v, data);
            let addr = (0x7000 + i) as u16;
            &&& icd2_read(p, 0x6002) == 1
            &&& icd2_read(p, addr) == data[i]
            &&& icd2_read(icd2_after_read(p, addr), 0x6002) == if i == 15 {
                0u8
            } else {
                1
            }
        }),
{
}

/// The place of a pixel's byte of plane 0 among the tile rows; that of plane 1
/// follows it.
pub open spec fn plane_byte_at(x: int, y: int) -> int {
    y / 8 * 320 + x / 8 * 16 + y % 8 * 2
}

/// Bit of the pixel `x` in a byte of a plane.
pub open spec fn pixel_bit(byte: u8, x: int) -> int {
    let b = byte as int;
    let i = x % 8;
    if i == 0 {
        b / 128
    } else if i == 1 {
        b / 64 % 2
    } else if i == 2 {
        b / 32 % 2
    } else if i == 3 {
        b / 16 % 2
    } else if i == 4 {
        b / 8 % 2
    } else if i == 5 {
        b / 4 % 2
    } else if i == 6 {
        b / 2 % 2
    } else {
        b % 2
    }
}

proof fn lemma_byte_bits(
    v: int,
    b0: int,
    b1: int,
    b2: int,
    b3: int,
    b4: int,
    b5: int,
    b6: int,
    b7: int,
)
    requires
        0 <= b0 <= 1,
        0 <= b1 <= 1,
        0 <= b2 <= 1,
        0 <= b3 <= 1,
        0 <= b4 <= 1,
        0 <= b5 <= 1,
        0 <= b6 <= 1,
        0 <= b7 <= 1,
        v == 2 * (2 * (2 * (2 * (2 * (2 * (2 * b0 + b1) + b2) + b3) + b4) + b5) + b6) + b7,
    ensures
        0 <= v <= 255,
        v % 2 == b7,
        v / 2 % 2 == b6,
        v / 4 % 2 == b5,
        v / 8 % 2 == b4,
        v / 16 % 2 == b3,
        v / 32 % 2 == b2,
        v / 64 % 2 == b1,
        v / 128 == b0,
{
    let v1 = 2 * (2 * (2 * (2 * (2 * (2 * b0 + b1) + b2) + b3) + b4) + b5) + b6;
    let v2 = 2 * (2 * (2 * (2 * (2 * b0 + b1) + b2) + b3) + b4) + b5;
    let v3 = 2 * (2 * (2 * (2 * b0 + b1) + b2) + b3) + b4;
    let v4 = 2 * (2 * (2 * b0 + b1) + b2) + b3;
    let v5 = 2 * (2 * b0 + b1) + b2;
    let v6 = 2 * b0 + b1;
    assert(v / 2 == v1);
    assert(v / 4 == v2);
    assert(v / 8 == v3);
    assert(v / 16 == v4);
    assert(v / 32 == v5);
    assert(v / 64 == v6);
}

proof fn lemma_plane_bit(shades: Seq<u8>, x: int, y: int, plane: int, i: int)
    requires
        plane == 0 || plane == 1,
        0 <= i < 8,
    ensures
        pixel_bit(plane_bits(shades, x, y, plane, 8) as u8, i) == shade_bit(
            shades,
            x + i,
            y,
            plane,
        ),
{
    let v = plane_bits(shades, x, y, plane, 8);
    assert(v == 2 * (2 * (2 * (2 * (2 * (2 * (2 * shade_bit(shades, x, y, plane) + shade_bit(
        shades,
        x + 1,
        y,
        plane,
    )) + shade_bit(shades, x + 2, y, plane)) + shade_bit(shades, x + 3, y, plane)) + shade_bit(
        shades,
        x + 4,
        y,
        plane,
    )) + shade_bit(shades, x + 5, y, plane)) + shade_bit(shades, x + 6, y, plane)) + shade_bit(
        shades,
        x + 7,
        y,
        plane,
    )) by {
        reveal_with_fuel(plane_bits, 9);
    }
    lemma_byte_bits(
        v,
        shade_bit(shades, x, y, plane),
        shade_bit(shades, x + 1, y, plane),
        shade_bit(shades, x + 2, y, plane),
        shade_bit(shades, x + 3, y, plane),
        shade_bit(shades, x + 4, y, plane),
        shade_bit(shades, x + 5, y, plane),
        shade_bit(shades, x + 6, y, plane),
        shade_bit(shades, x + 7, y, plane),
    );
}

/// Tile rows keep every pixel: its shade is in the bits of its two planes.
pub proof fn law_tile_rows_keep_every_pixel(shades: Seq<u8>, x: int, y: int)
    requires
        0 <= x < 160,
        0 <= y < 144,
    ensures
        shade_at(shades, x, y) == pixel_bit(tile_byte(shades, plane_byte_at(x, y)), x) + 2
            * pixel_bit(tile_byte(shades, plane_byte_at(x, y) + 1), x),
{
    let k = plane_byte_at(x, y);
    assert(k / 320 == y / 8 && k % 320 == x / 8 * 16 + y % 8 * 2);
    assert(k % 320 / 16 == x / 8 && k % 16 == y % 8 * 2 && k % 16 / 2 == y % 8 && k % 2 == 0);
    assert((k + 1) / 320 == y / 8 && (k + 1) % 320 == x / 8 * 16 + y % 8 * 2 + 1);
    assert((k + 1) % 320 / 16 == x / 8 && (k + 1) % 16 == y % 8 * 2 + 1 && (k + 1) % 16 / 2 == y
        % 8 && (k + 1) % 2 == 1);
    assert(y / 8 * 8 + y % 8 == y);
    lemma_plane_bit(shades, x / 8 * 8, y, 0, x % 8);
    lemma_plane_bit(shades, x / 8 * 8, y, 1, x % 8);
}

} // verus!
