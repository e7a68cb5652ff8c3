use vibeboy::sgb::Sgb;

fn send(s: &mut Sgb, packet: &[u8; 16]) {
    s.write_p1(0x00);
    s.write_p1(0x30);
    for byte in packet {
        for bit in 0..8 {
            s.write_p1(if byte >> bit & 1 == 1 { 0x10 } else { 0x20 });
            s.write_p1(0x30);
        }
    }
    s.write_p1(0x20);
    s.write_p1(0x30);
}

fn active() -> Sgb {
    let mut s = Sgb::new();
    s.protocol_active = true;
    s
}

#[test]
fn pal01_sets_two_palettes_and_shares_color_0() {
    let mut s = active();
    let mut p = [0u8; 16];
    p[0] = 0x01;
    for (i, b) in p.iter_mut().enumerate().skip(1).take(14) {
        *b = i as u8;
    }
    send(&mut s, &p);
    assert_eq!(s.palettes[0], [0x0201, 0x0403, 0x0605, 0x0807]);
    assert_eq!(s.palettes[1], [0x0201, 0x0A09, 0x0C0B, 0x0E0D]);
    assert_eq!(s.palettes[2][0], 0x0201);
    assert_eq!(s.palettes[3][0], 0x0201);
}

#[test]
fn packets_are_ignored_without_the_protocol() {
    let mut s = active();
    s.protocol_active = false;
    let before = s.palettes;
    let mut p = [0xFFu8; 16];
    p[0] = 0x01;
    send(&mut s, &p);
    assert_eq!(s.palettes, before);
}

#[test]
fn invalid_commands_do_nothing() {
    let mut s = active();
    let before = s.palettes;
    let mut p = [0u8; 16];
    p[0] = 0x18 << 3 | 1;
    send(&mut s, &p);
    assert_eq!(s.palettes, before);
    assert_eq!(s.mask_mode, 0);
}

#[test]
fn mask_en_sets_the_mask() {
    let mut s = active();
    let mut p = [0u8; 16];
    p[0] = 0x17 << 3 | 1;
    p[1] = 2;
    send(&mut s, &p);
    assert_eq!(s.mask_mode, 2);
}

#[test]
fn players_take_turns() {
    let mut s = active();
    assert_eq!(s.read_p1_id(), 0x0F);
    let mut p = [0u8; 16];
    p[0] = 0x11 << 3 | 1;
    p[1] = 3;
    send(&mut s, &p);
    assert_eq!(s.player_count, 4);
    let mut ids = vec![];
    for _ in 0..5 {
        ids.push(s.read_p1_id());
        s.write_p1(0x10);
        s.write_p1(0x30);
    }
    for w in ids.windows(2) {
        assert_eq!(w[1], if w[0] == 0x0C { 0x0F } else { w[0] - 1 });
    }
}

#[test]
fn relayed_packets_are_kept_in_order() {
    let mut s = active();
    s.lle_mode = true;
    let mut a = [0u8; 16];
    a[0] = 0x17 << 3 | 1;
    let mut b = a;
    b[1] = 1;
    send(&mut s, &a);
    send(&mut s, &b);
    assert_eq!(s.pending_packets, vec![a, b]);
}

#[test]
fn transfer_is_due_after_its_frames() {
    let mut s = active();
    let mut p = [0u8; 16];
    p[0] = 0x0B << 3 | 1;
    send(&mut s, &p);
    let mut frames = 0;
    while !s.has_pending_transfer() && frames < 10 {
        s.tick_transfer();
        frames += 1;
    }
    assert_eq!(frames, 2);
}

#[test]
fn rgb555_expands_each_channel() {
    assert_eq!(Sgb::rgb555_to_rgb32(0x0000) & 0xFF_FFFF, 0x00_0000);
    assert_eq!(Sgb::rgb555_to_rgb32(0x7FFF) & 0xFF_FFFF, 0xFF_FFFF);
    assert_eq!(Sgb::rgb555_to_rgb32(0x001F) & 0xFF_FFFF, 0xFF_0000);
    assert_eq!(Sgb::rgb555_to_rgb32(0x03E0) & 0xFF_FFFF, 0x00_FF00);
    assert_eq!(Sgb::rgb555_to_rgb32(0x7C00) & 0xFF_FFFF, 0x00_00FF);
}

#[test]
fn palettes_color_the_shades() {
    let s = Sgb::new();
    let shades = vec![0u8; 160 * 144];
    let mut out = vec![0u32; 160 * 144];
    s.apply_palettes(&shades, &mut out);
    assert_eq!(out[0], Sgb::rgb555_to_rgb32(s.palettes[0][0]));
    assert!(out.iter().all(|&p| p == out[0]));
}

#[test]
fn the_game_stands_inside_the_border() {
    let s = Sgb::new();
    let mut border = vec![0u32; 256 * 224];
    s.render_border(&mut border);
    let game = vec![0x12_3456u32; 160 * 144];
    Sgb::composite_frame(&mut border, &game);
    assert_eq!(border[40 * 256 + 48], 0x12_3456);
    assert_eq!(border[183 * 256 + 207], 0x12_3456);
    assert_ne!(border[39 * 256 + 48], 0x12_3456);
}

fn transfer(command: u8, extra: u8, data: &[u8]) -> Sgb {
    let mut s = active();
    let mut p = [0u8; 16];
    p[0] = command << 3 | 1;
    p[1] = extra;
    send(&mut s, &p);
    while !s.has_pending_transfer() {
        s.tick_transfer();
    }
    s.execute_transfer(data);
    assert!(!s.has_pending_transfer());
    s
}

#[test]
fn transfers_load_their_tables() {
    let data: Vec<u8> = (0..4096u32).map(|i| (i * 7 % 251) as u8).collect();
    let word = |i: usize| data[2 * i] as u16 | (data[2 * i + 1] as u16) << 8;

    let s = transfer(0x0B, 0, &data);
    assert_eq!(s.sys_palettes[0], 0x0700);
    assert_eq!(s.sys_palettes[2047], word(2047));

    let s = transfer(0x13, 1, &data);
    assert_eq!(s.border_tiles[4096..8192], data[..]);
    assert_eq!(s.border_tiles[..4096], [0u8; 4096][..]);
    assert!(s.border_dirty);

    let s = transfer(0x14, 0, &data);
    assert_eq!(s.border_map[895], word(895));
    assert_eq!(s.border_palettes[3][15], word(0x400 + 63));

    let s = transfer(0x15, 0, &data);
    assert_eq!(s.attr_files[44][89], data[44 * 90 + 89]);
}

#[test]
fn short_transfers_keep_the_rest() {
    let s = transfer(0x0B, 0, &[1, 2, 3]);
    assert_eq!(s.sys_palettes[0], 0x0201);
    assert_eq!(s.sys_palettes[1], 0);
}

#[test]
fn uploads_are_selected() {
    let data: Vec<u8> = (0..4096u32).map(|i| (i * 7 % 251) as u8).collect();
    let word = |i: usize| data[2 * i] as u16 | (data[2 * i + 1] as u16) << 8;

    let mut s = transfer(0x0B, 0, &data);
    let mut p = [0u8; 16];
    p[0] = 0x0A << 3 | 1;
    p[1] = 3;
    p[3] = 0xFF;
    p[4] = 0x01;
    send(&mut s, &p);
    assert_eq!(s.palettes[0], [word(12), word(13), word(14), word(15)]);
    assert_eq!(s.palettes[1], [word(12), word(2045), word(2046), word(2047)]);

    let mut s = transfer(0x15, 0, &data);
    let mut p = [0u8; 16];
    p[0] = 0x16 << 3 | 1;
    p[1] = 2;
    send(&mut s, &p);
    assert_eq!(s.attr_map[0][0], data[180] >> 6);
    assert_eq!(s.attr_map[17][19], data[180 + 89] & 3);
}

#[test]
fn attributes_beyond_the_palettes_use_the_last_one() {
    let mut s = Sgb::new();
    s.palettes[3][2] = 0x001F;
    s.attr_map[1][2] = 7;
    s.attr_map[1][3] = 2;
    let shades = [2u8; 160 * 144];
    let mut out = vec![0u32; 160 * 144 + 1];
    out[160 * 144] = 5;
    s.apply_palettes(&shades, &mut out);
    assert_eq!(out[8 * 160 + 16], 0xFF_0000);
    assert_eq!(out[8 * 160 + 24], Sgb::rgb555_to_rgb32(s.palettes[2][2]));
    assert_eq!(out[160 * 144], 5);
    // The packets still work on such a map.
    s.protocol_active = true;
    let mut p = [0u8; 16];
    p[0] = 0x05 << 3 | 1;
    p[1] = 1;
    p[2] = 0x80 | 1 << 5 | 2;
    send(&mut s, &p);
    assert_eq!(s.attr_map[2], [1; 20]);
    assert_eq!(s.attr_map[1][2], 7);
}

#[test]
fn missing_border_tiles_are_transparent() {
    let mut s = Sgb::new();
    s.border_tiles = vec![0xFF; 32];
    s.border_palettes[0][15] = 0x7FFF;
    s.border_map[1] = 1;
    let mut border = vec![1u32; 256 * 224];
    s.render_border(&mut border);
    assert_eq!(border[0], 0xFF_FFFF);
    assert_eq!(border[8], 0);
    // No room for a whole half.
    s.pending_transfer = Some(0x13);
    s.execute_transfer(&[1u8; 4096]);
    assert_eq!(s.border_tiles, vec![0xFF; 32]);
}

#[test]
fn numbers_stay_in_range() {
    let mut s = active();
    for (byte, players) in [(1u8, 2u8), (3, 4), (2, 1), (0, 1)] {
        let mut p = [0u8; 16];
        p[0] = 0x11 << 3 | 1;
        p[1] = byte;
        send(&mut s, &p);
        assert_eq!(s.player_count, players);
        for _ in 0..9 {
            s.write_p1(0x10);
            s.write_p1(0x30);
            assert!(s.current_player < s.player_count);
        }
    }
    assert!(s.attr_map.iter().flatten().all(|&a| a < 4));
}
