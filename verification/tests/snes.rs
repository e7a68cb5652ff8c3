use vibeboy::snes::bus::SnesBus;
use vibeboy::snes::cpu::Cpu65816;
use vibeboy::snes::dma::DmaController;
use vibeboy::snes::icd2::Icd2;
use vibeboy::snes::ppu_regs::SnesPpuRegs;
use vibeboy::snes::SnesSys;

/// A program at the start of bank 0, reached by the reset vector.
fn program(code: &[u8]) -> Vec<u8> {
    let mut rom = vec![0u8; 0x8000];
    rom[..code.len()].copy_from_slice(code);
    rom[0x7FFC] = 0x00;
    rom[0x7FFD] = 0x80;
    rom
}

fn run(code: &[u8], steps: usize) -> (Cpu65816, SnesBus) {
    let mut bus = SnesBus::new(program(code));
    let mut cpu = Cpu65816::new();
    cpu.reset(&mut bus);
    for _ in 0..steps {
        let spent = cpu.step(&mut bus);
        assert!((6..=60).contains(&spent));
    }
    (cpu, bus)
}

#[test]
fn reset_starts_at_the_vector() {
    let (cpu, _) = run(&[], 0);
    assert_eq!(cpu.pc, 0x8000);
    assert_eq!(cpu.s, 0x01FF);
    assert!(cpu.emulation);
}

#[test]
fn loads_and_stores() {
    // lda #$42 / sta $10 / ldx $10
    let (cpu, mut bus) = run(&[0xA9, 0x42, 0x85, 0x10, 0xA6, 0x10], 3);
    assert_eq!(cpu.a & 0xFF, 0x42);
    assert_eq!(cpu.x, 0x42);
    assert_eq!(bus.read(0x10), 0x42);
    assert_eq!(bus.read(0x7E_0010), 0x42);
}

#[test]
fn native_mode_has_wide_registers() {
    // clc / xce / rep #$30 / lda #$1234 / ldx #$5678 / xba
    let (cpu, _) = run(&[0x18, 0xFB, 0xC2, 0x30, 0xA9, 0x34, 0x12, 0xA2, 0x78, 0x56, 0xEB], 6);
    assert!(!cpu.emulation);
    assert_eq!(cpu.a, 0x3412);
    assert_eq!(cpu.x, 0x5678);
}

#[test]
fn narrow_index_registers_lose_their_high_byte() {
    // clc / xce / rep #$10 / ldx #$5678 / sep #$10
    let (cpu, _) = run(&[0x18, 0xFB, 0xC2, 0x10, 0xA2, 0x78, 0x56, 0xE2, 0x10], 5);
    assert_eq!(cpu.x, 0x78);
}

#[test]
fn decimal_addition() {
    // sed / clc / lda #$19 / adc #$28
    let (cpu, _) = run(&[0xF8, 0x18, 0xA9, 0x19, 0x69, 0x28], 4);
    assert_eq!(cpu.a & 0xFF, 0x47);
}

#[test]
fn binary_subtraction_borrows() {
    // sec / lda #$10 / sbc #$20
    let (cpu, _) = run(&[0x38, 0xA9, 0x10, 0xE9, 0x20], 3);
    assert_eq!(cpu.a & 0xFF, 0xF0);
    assert_eq!(cpu.p & 0x01, 0);
    assert_eq!(cpu.p & 0x80, 0x80);
}

#[test]
fn stack_gives_back_what_was_pushed() {
    // lda #$5A / pha / lda #$00 / pla
    let (cpu, _) = run(&[0xA9, 0x5A, 0x48, 0xA9, 0x00, 0x68], 4);
    assert_eq!(cpu.a & 0xFF, 0x5A);
    assert_eq!(cpu.s, 0x01FF);
}

#[test]
fn calls_return() {
    // jsr $8006 / lda #$01 / stp ; $8006: ldx #$02 / rts
    let code = [0x20, 0x06, 0x80, 0xA9, 0x01, 0xDB, 0xA2, 0x02, 0x60];
    let (cpu, _) = run(&code, 4);
    assert_eq!(cpu.a & 0xFF, 1);
    assert_eq!(cpu.x, 2);
}

#[test]
fn block_move_copies() {
    // clc / xce / rep #$30 / lda #2 / ldx #$8011 / ldy #$0100 / mvn $7E,$00
    let mut code = vec![
        0x18, 0xFB, 0xC2, 0x30, 0xA9, 0x02, 0x00, 0xA2, 0x11, 0x80, 0xA0, 0x00, 0x01, 0x54, 0x7E, 0x00, 0xDB,
    ];
    code.extend_from_slice(&[0xDE, 0xAD, 0xBE]);
    let (_, mut bus) = run(&code, 9);
    assert_eq!(bus.read(0x7E_0100), 0xDE);
    assert_eq!(bus.read(0x7E_0101), 0xAD);
    assert_eq!(bus.read(0x7E_0102), 0xBE);
}

#[test]
fn nmi_is_taken_on_its_rising_edge() {
    let mut rom = program(&[0xEA; 16]);
    rom[0x7FFA] = 0x00;
    rom[0x7FFB] = 0x90;
    let mut bus = SnesBus::new(rom);
    let mut cpu = Cpu65816::new();
    cpu.reset(&mut bus);
    cpu.set_nmi(true);
    cpu.step(&mut bus);
    assert_eq!(cpu.pc, 0x9000);
    cpu.step(&mut bus);
    assert_ne!(cpu.pc, 0x9000);
}

#[test]
fn work_memory_reads_back_through_its_mirrors() {
    let mut bus = SnesBus::new(vec![]);
    bus.write(0x7E_0123, 0x55);
    assert_eq!(bus.read(0x00_0123), 0x55);
    assert_eq!(bus.read(0x80_0123), 0x55);
    bus.write(0x7F_0123, 0x66);
    assert_eq!(bus.read(0x7E_0123), 0x55);
    assert_eq!(bus.read(0x7F_0123), 0x66);
}

#[test]
fn program_memory_is_read_only() {
    let mut bus = SnesBus::new(program(&[0x11, 0x22]));
    bus.write(0x00_8000, 0x99);
    assert_eq!(bus.read(0x00_8000), 0x11);
    assert_eq!(bus.read(0x80_8001), 0x22);
    assert_eq!(bus.read(0x01_8000), 0x00);
}

#[test]
fn multiplier_and_divider() {
    let mut bus = SnesBus::new(vec![]);
    bus.write(0x4202, 200);
    bus.write(0x4203, 150);
    assert_eq!(bus.read(0x4216) as u32 + 256 * bus.read(0x4217) as u32, 30000);
    bus.write(0x4204, 0xE8);
    bus.write(0x4205, 0x03);
    bus.write(0x4206, 7);
    assert_eq!(bus.read(0x4214), 142);
    assert_eq!(bus.read(0x4216), 6);
    bus.write(0x4206, 0);
    assert_eq!(bus.read(0x4214), 0xFF);
    assert_eq!(bus.read(0x4215), 0xFF);
    assert_eq!(bus.read(0x4216), 0xE8);
}

#[test]
fn nmi_flag_is_cleared_by_reading() {
    let mut bus = SnesBus::new(vec![]);
    bus.set_nmi_flag();
    assert!(!bus.nmi_enabled());
    bus.write(0x4200, 0x80);
    assert!(bus.nmi_enabled());
    assert_eq!(bus.read(0x4210) & 0x80, 0x80);
    assert_eq!(bus.read(0x4210) & 0x80, 0);
    assert!(!bus.nmi_enabled());
}

#[test]
fn sound_upload_is_answered() {
    let mut bus = SnesBus::new(vec![]);
    assert_eq!(bus.read(0x2140), 0xAA);
    assert_eq!(bus.read(0x2141), 0xBB);
    bus.write(0x2141, 0x01);
    bus.write(0x2140, 0xCC);
    assert_eq!(bus.read(0x2140), 0xCC);
    for i in 0..4u8 {
        bus.write(0x2140, i);
        assert_eq!(bus.read(0x2140), i);
    }
    bus.write(0x2141, 0x00);
    bus.write(0x2140, 0x20);
    assert_eq!(bus.read(0x2140), 0x20);
    assert_eq!(bus.read(0x2140), 0xAA);
    assert_eq!(bus.read(0x2141), 0xBB);
}

#[test]
fn dma_copies_to_the_palette() {
    let mut bus = SnesBus::new(vec![]);
    for (i, b) in [0x1Fu8, 0x00, 0xE0, 0x03].iter().enumerate() {
        bus.write(0x7E_1000 + i as u32, *b);
    }
    bus.write(0x2121, 0);
    bus.write(0x4300, 0x00);
    bus.write(0x4301, 0x22);
    bus.write(0x4302, 0x00);
    bus.write(0x4303, 0x10);
    bus.write(0x4304, 0x7E);
    bus.write(0x4305, 4);
    bus.write(0x4306, 0);
    bus.write(0x420B, 0x01);
    assert_eq!(bus.ppu.cgram[0..4], [0x1F, 0x00, 0xE0, 0x03]);
}

#[test]
fn dma_registers_read_back() {
    let mut d = DmaController::new();
    d.write(0x12, 0x34);
    d.write(0x22, 0x56);
    assert_eq!(d.read(0x12), 0x34);
    assert_eq!(d.read(0x22), 0x56);
}

#[test]
fn dma_registers_are_apart() {
    let mut d = DmaController::new();
    for reg in 0..0xC {
        d.write(0x30 + reg, 0x10 + reg as u8);
    }
    d.write(0x33, 0xAB);
    for reg in 0..0xC {
        let want = if reg == 3 { 0xAB } else { 0x10 + reg as u8 };
        assert_eq!(d.read(0x30 + reg), want);
    }
    d.write(0x3F, 0xCD);
    assert_eq!(d.read(0x3B), 0xCD);
    assert_eq!(d.read(0x23), 0xFF);
}

#[test]
fn video_words_read_back() {
    let mut p = SnesPpuRegs::new();
    p.write(0x2115, 0x80);
    p.write(0x2116, 0x34);
    p.write(0x2117, 0x12);
    p.write(0x2118, 0xCD);
    p.write(0x2119, 0xAB);
    p.write(0x2116, 0x34);
    p.write(0x2117, 0x12);
    assert_eq!(p.read(0x2139), 0xCD);
    assert_eq!(p.read(0x213A), 0xAB);
}

#[test]
fn colors_are_stored_whole() {
    let mut p = SnesPpuRegs::new();
    p.write(0x2121, 3);
    p.write(0x2122, 0xFF);
    assert_eq!(p.cgram[6], 0);
    p.write(0x2122, 0xFF);
    assert_eq!(p.cgram[6], 0xFF);
    assert_eq!(p.cgram[7], 0x7F);
}

#[test]
fn sprite_bytes_are_stored_in_pairs() {
    let mut p = SnesPpuRegs::new();
    p.write(0x2103, 0);
    p.write(0x2102, 5);
    p.write(0x2104, 0x11);
    assert_eq!(p.oam[10], 0);
    p.write(0x2104, 0x22);
    assert_eq!(p.oam[10], 0x11);
    assert_eq!(p.oam[11], 0x22);
}

#[test]
fn tile_rows_stream_out() {
    let mut icd = Icd2::new();
    let mut shades = vec![0u8; 160 * 144];
    shades[0] = 3;
    shades[8 * 160 + 7] = 2;
    icd.feed_scanlines(&shades);
    icd.write(0x6001, 0);
    assert_eq!(icd.read(0x7800), 0x80);
    assert_eq!(icd.read(0x7800), 0x80);
    assert_eq!(icd.read(0x7800), 0x00);
    icd.write(0x6001, 1);
    assert_eq!(icd.read(0x7800), 0x00);
    assert_eq!(icd.read(0x7800), 0x01);
}

#[test]
fn packets_read_back_until_the_last_byte() {
    let mut icd = Icd2::new();
    let mut data = [0u8; 16];
    for (i, b) in data.iter_mut().enumerate() {
        *b = 0x10 + i as u8;
    }
    assert_eq!(icd.read(0x6002), 0);
    icd.feed_packet(&data);
    assert_eq!(icd.read(0x6002), 1);
    for i in 0..16u16 {
        assert_eq!(icd.read(0x6002), 1);
        assert_eq!(icd.read(0x7000 + i), 0x10 + i as u8);
    }
    assert_eq!(icd.read(0x6002), 0);
}

#[test]
fn a_frame_runs_to_its_end() {
    // A program that loops for ever.
    let mut sys = SnesSys::new(program(&[0x80, 0xFE]));
    sys.run_frame();
    let first = sys.cpu.cycles;
    assert!((357_366..357_366 + 100).contains(&first));
    sys.run_frame();
    assert!((first + 357_366..first + 357_366 + 100).contains(&sys.cpu.cycles));
    assert_eq!(sys.cpu.pc, 0x8000);
    assert_eq!(sys.frame_count, 2);
    assert_eq!(sys.bus.nmi_fire_count, 0);
}

#[test]
fn the_gates_open_once_the_sound_upload_is_over() {
    let mut sys = SnesSys::new(program(&[0x80, 0xFE]));
    for _ in 0..31 {
        sys.run_frame();
    }
    assert!(!sys.bios_ready());
    assert_eq!(sys.cpu.p & 0x04, 0x04);
    sys.run_frame();
    assert!(sys.bios_ready());
    assert_eq!(sys.bus.read(0x0C4F), 0xFF);
    assert_eq!(sys.cpu.p & 0x04, 0);
}

#[test]
fn an_enabled_nmi_fires_once_per_frame() {
    let mut sys = SnesSys::new(program(&[0x80, 0xFE]));
    sys.bus.write(0x4200, 0x80);
    sys.run_frame();
    sys.run_frame();
    assert_eq!(sys.bus.nmi_fire_count, 2);
}

#[test]
fn system_snapshot_round_trip() {
    let mut sys = SnesSys::new(program(&[0xE6, 0x10, 0x80, 0xFC]));
    sys.run_frame();
    let snap = sys.take_snapshot();
    let pc = sys.cpu.pc;
    let count = sys.bus.read(0x10);
    sys.run_frame();
    sys.bus.write(0x10, count.wrapping_add(99));
    sys.apply_snapshot(&snap);
    assert_eq!(sys.cpu.pc, pc);
    assert_eq!(sys.bus.read(0x10), count);
}

#[test]
fn palettes_come_from_the_color_memory() {
    let mut sys = SnesSys::new(vec![]);
    sys.bus.write(0x2121, 0);
    for b in [0x34u8, 0x12, 0x78, 0x56] {
        sys.bus.write(0x2122, b);
    }
    let p = sys.extract_palettes();
    assert_eq!(p[0][0], 0x1234);
    assert_eq!(p[0][1], 0x5678);
}

#[test]
fn border_and_attributes_come_from_the_video_memory() {
    let mut sys = SnesSys::new(vec![]);
    sys.bus.ppu.bg_chr[0] = 0x10;
    sys.bus.ppu.bg_sc[0] = 0x08;
    sys.bus.ppu.bg_sc[1] = 0x0C;
    sys.bus.ppu.vram[0x2000 + 5] = 0xAB;
    sys.bus.ppu.vram[0x1800 + 2] = 0x34;
    sys.bus.ppu.vram[0x1800 + 3] = 0x12;
    sys.bus.ppu.vram[0x1000 + 2 * (32 * 3 + 7) + 1] = 5 << 2;
    sys.bus.ppu.cgram[2 * (4 * 16 + 1)] = 0xCD;
    let (tiles, map, palettes) = sys.extract_border();
    assert_eq!(tiles.len(), 0x2000);
    assert_eq!(tiles[5], 0xAB);
    assert_eq!(map[1], 0x1234);
    assert_eq!(palettes[0][1], 0x00CD);
    let attributes = sys.extract_attr_map().unwrap();
    assert_eq!(attributes[3][7], 5);
    assert_eq!(attributes[3][6], 0);
}

#[test]
fn status_names_row_and_slot() {
    let mut icd2 = Icd2::new();
    let shades: Vec<u8> = (0..160 * 144).map(|i| (i / 160 / 8 % 4) as u8).collect();
    icd2.feed_scanlines(&shades);
    for row in 0..18u8 {
        icd2.set_tile_row(row);
        assert_eq!(icd2.read(0x6000), row << 3 | row & 3);
        if row > 0 {
            icd2.write(0x6001, (row - 1) & 3);
            assert_eq!(icd2.read(0x7800), if (row - 1) & 1 == 1 { 0xFF } else { 0x00 });
            assert_eq!(icd2.read(0x7800), if (row - 1) & 2 == 2 { 0xFF } else { 0x00 });
        }
    }
}

#[test]
fn upper_banks_mirror_the_lower_ones() {
    let mut rom = vec![0u8; 0x1_0000];
    rom[0x8005] = 0x5A;
    let mut bus = SnesBus::new(rom);
    bus.write(0x80_0123, 0x77);
    assert_eq!(bus.read(0x00_0123), 0x77);
    assert_eq!(bus.read(0x01_8005), 0x5A);
    assert_eq!(bus.read(0x81_8005), 0x5A);
    assert_eq!(bus.read(0xFE_0123), 0x77);
    bus.write(0x7E_0010, 0x5A);
    for addr in [0x00_0010, 0x80_0010, 0x7E_0010, 0xFE_0010] {
        assert_eq!(bus.read(addr), 0x5A);
    }
    bus.write(0xFF_4000, 0x66);
    assert_eq!(bus.read(0x7F_4000), 0x66);
    assert_eq!(bus.read(0x7E_4000), 0);
}

#[test]
fn a_fresh_bridge_shows_the_blank_row_and_slot_0() {
    let mut icd = Icd2::new();
    assert_eq!(icd.read(0x6000), 0x88);
}

#[test]
fn joypad_bytes_go_to_their_players() {
    let mut icd = Icd2::new();
    icd.write(0x6005, 0x5A);
    assert_eq!(icd.joy_data, [0, 0x5A, 0, 0]);
    icd.write(0x6007, 0x77);
    icd.write(0x6004, 0x11);
    assert_eq!(icd.joy_data, [0x11, 0x5A, 0, 0x77]);
}

#[test]
fn a_snapshot_keeps_the_program_of_its_receiver() {
    let mut from = SnesSys::new(program(&[0x11]));
    from.bus.write(0x10, 0x99);
    let mut to = SnesSys::new(program(&[0x22]));
    to.apply_snapshot(&from.take_snapshot());
    assert_eq!(to.bus.read(0x10), 0x99);
    assert_eq!(to.bus.read(0x00_8000), 0x22);
}

#[test]
fn the_work_memory_port_ignores_addresses_beyond_its_range() {
    let mut bus = SnesBus::new(vec![]);
    bus.wmadd = 0x12_3456;
    assert_eq!(bus.read(0x2180), 0);
    assert_eq!(bus.wmadd, 0x0_3457);
    bus.wmadd = 0x12_3456;
    bus.write(0x2180, 0x99);
    assert!(bus.wram.iter().all(|&b| b == 0));
    bus.wmadd = 0xFFF7_3456;
    bus.write(0x2181, 0x78);
    assert_eq!(bus.wmadd, 0x1_3478);
}

#[test]
fn the_work_memory_port_reaches_every_byte() {
    let mut bus = SnesBus::new(vec![]);
    let point = |bus: &mut SnesBus| {
        bus.write(0x2181, 0xFF);
        bus.write(0x2182, 0xFF);
        bus.write(0x2183, 0x01);
    };
    point(&mut bus);
    bus.write(0x2180, 0x12);
    bus.write(0x2180, 0x34);
    assert_eq!(bus.read(0x7F_FFFF), 0x12);
    assert_eq!(bus.read(0x7E_0000), 0x34);
    point(&mut bus);
    assert_eq!(bus.read(0x2180), 0x12);
    assert_eq!(bus.read(0x2180), 0x34);
    assert_eq!(bus.wmadd, 1);
}
