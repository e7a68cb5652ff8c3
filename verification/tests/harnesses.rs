use vibeboy::model::GbModel;
use vibeboy::test_runner::commands::{
    advance_events, argb_hex, argb_pixels, belongs_to_stem, cp_record, curve_color,
    edge_colors_json, flag_names, mark_of, rgb_bytes, wants_svg, wav_bytes, CpNumbers, CpRecord,
};
use vibeboy::test_runner::debug_commands::{
    analyze_right_edge, boot_is_done, calibrated_models, push_history, timer_delta, TraceEntry,
};
use vibeboy::test_runner::harness::{summarize, Summary, TestResult};
use vibeboy::test_runner::harnesses::blargg::blargg_verdict;
use vibeboy::test_runner::harnesses::gambatte::{
    check_screen, gambatte_digit_index, gambatte_tile_matches, parse_gambatte_test, plan_runs,
    read_digit, DIGITS,
};
use vibeboy::test_runner::harnesses::gbmicrotest::{
    find_expected_value, frames_for, gbmicrotest_verdict,
};
use vibeboy::test_runner::harnesses::mooneye::{
    boot_rom_for, find_mismatches, mooneye_passed, mooneye_verdict,
};
use vibeboy::test_runner::harnesses::tearoom::{
    compare_screens, dmg_pixel_to_reference, reference_suffixes, tearoom_model, tearoom_verdict,
};
use vibeboy::test_runner::model::{
    boot_rom_candidates, detect_model_with_rom, resolve_boot_rom, BootSource,
};
use vibeboy::test_runner::overlay::{dot_at, enlarge, enlarge_region, line_pens, plot, Dot};
use vibeboy::test_runner::util::{is_rom, parse_keys, try_parse_keys, Button};
use vibeboy::scaling::cell_graph::ControlPoint;

#[test]
fn a_fresh_summary_counts_nothing() {
    let s = Summary::default();
    assert_eq!((s.passed, s.failed, s.timeout, s.errors, s.skipped), (0, 0, 0, 0, 0));
    assert_eq!(s, summarize(&[]));
    assert_eq!(s.total(), 0);
    assert!(s.all_passed());
}

#[test]
fn models_by_name_and_header() {
    let detect = |stem: &str| detect_model_with_rom(&format!("roms/{stem}.gb"), stem, None);
    assert_eq!(detect("boot_regs-dmgABCmgb"), GbModel::Dmg);
    assert_eq!(detect("boot_regs-dmgABC"), GbModel::Dmg);
    assert_eq!(detect("boot_regs-dmg0"), GbModel::Dmg0);
    assert_eq!(detect("boot_regs-mgb"), GbModel::Mgb);
    assert_eq!(detect("boot_regs-sgb2"), GbModel::Sgb2);
    assert_eq!(detect("boot_regs-sgb"), GbModel::Sgb);
    assert_eq!(detect("boot_hwio-S"), GbModel::Sgb);
    assert_eq!(detect("boot_hwio-A"), GbModel::Agb);
    assert_eq!(detect("boot_regs-cgb0"), GbModel::Cgb0);
    assert_eq!(detect("boot_regs-cgb"), GbModel::Cgb);
    assert_eq!(detect("boot_hwio-C"), GbModel::Cgb);
    assert_eq!(detect("boot_div-cgbABCDE"), GbModel::Cgb);
    assert_eq!(detect("ei_timing-GS"), GbModel::Dmg);
    assert_eq!(detect("vblank_stat_intr-G"), GbModel::Dmg);
    assert_eq!(detect("plain"), GbModel::Cgb);
    let mut rom = vec![0u8; 0x150];
    assert_eq!(detect_model_with_rom("a.gb", "a", Some(&rom)), GbModel::Dmg);
    rom[0x143] = 0x80;
    assert_eq!(detect_model_with_rom("a.gb", "a", Some(&rom)), GbModel::Cgb);
    rom[0x143] = 0xC0;
    assert_eq!(detect_model_with_rom("a.gb", "a", Some(&rom)), GbModel::Cgb);
    assert_eq!(detect_model_with_rom("oam_bug/a-C.gb", "a-C", Some(&rom)), GbModel::Dmg);
    assert_eq!(detect_model_with_rom("a.gb", "a", Some(&[1, 2])), GbModel::Dmg);
}

#[test]
fn boot_rom_files_in_order() {
    assert_eq!(
        boot_rom_candidates(GbModel::Dmg0),
        vec!["bootroms/dmg0_boot.bin", "bootroms/dmg_boot.bin"]
    );
    assert_eq!(boot_rom_candidates(GbModel::Cgb), vec!["bootroms/cgb_boot.bin", "gbc_bios.bin"]);
    assert!(resolve_boot_rom(false, true) == BootSource::Named);
    assert!(resolve_boot_rom(true, false) == BootSource::Candidates);
    assert!(resolve_boot_rom(false, false) == BootSource::Nowhere);
}

#[test]
fn key_scripts_are_parsed_in_order() {
    let e = parse_keys(" 100:A, 20:start ,x:b,7:fire,3:up:down,");
    let got: Vec<(u32, bool)> = e.iter().map(|k| (k.frame, k.down)).collect();
    assert_eq!(
        got,
        vec![(0, true), (4, false), (20, true), (24, false), (100, true), (104, false)]
    );
    assert!(e[0].button == Button::B);
    assert!(e[2].button == Button::Start);
    assert!(e[4].button == Button::A);
    assert!(parse_keys("").is_empty());
    assert!(try_parse_keys("4294967295:a").is_none());
    assert_eq!(try_parse_keys("+5:LEFT").unwrap()[0].frame, 5);
}

#[test]
fn events_of_one_frame_keep_their_order() {
    let e = parse_keys("4:a,0:b");
    // The release of B and the press of A fall on frame 4; A was written first.
    assert!(e[1].button == Button::A && e[1].down);
    assert!(e[2].button == Button::B && !e[2].down);
    assert_eq!(advance_events(&e, 0, 0), 1);
    assert_eq!(advance_events(&e, 1, 3), 1);
    assert_eq!(advance_events(&e, 1, 4), 3);
}

#[test]
fn rom_extensions() {
    assert!(is_rom(Some("gb")) && is_rom(Some("gbc")));
    assert!(!is_rom(Some("GB")) && !is_rom(Some("gba")) && !is_rom(None));
}

#[test]
fn summaries_count_results() {
    let s = summarize(&[
        TestResult::Pass,
        TestResult::Skip,
        TestResult::Fail,
        TestResult::Pass,
        TestResult::Timeout,
        TestResult::Error,
    ]);
    assert_eq!(s.total(), 5);
    assert_eq!(s.skipped, 1);
    assert!(!s.all_passed());
    assert_eq!(s.line(), "--- 2 passed, 1 failed, 1 timeout, 1 error, 1 skipped (5 total) ---");
    let t = summarize(&[TestResult::Pass, TestResult::Skip]);
    assert!(t.all_passed());
    let u = summarize(&[TestResult::Pass]);
    assert_eq!(u.line(), "--- 1 passed, 0 failed, 0 timeout (1 total) ---");
    assert_eq!(TestResult::Timeout.label(), "TIMEOUT");
    assert_eq!(TestResult::Error.label(), "ERR");
}

#[test]
fn printed_verdicts() {
    assert!(blargg_verdict("cpu_instrs\n\nPassed all tests") == TestResult::Pass);
    assert!(blargg_verdict("01-special\nFailed #2") == TestResult::Fail);
    assert!(blargg_verdict("01-special") == TestResult::Timeout);
}

#[test]
fn register_verdicts() {
    assert!(mooneye_passed([3, 5, 8, 13, 21, 34]));
    assert!(!mooneye_passed([3, 5, 8, 13, 21, 35]));
    assert!(mooneye_verdict(Some([3, 5, 8, 13, 21, 34])) == TestResult::Pass);
    assert!(mooneye_verdict(Some([0x42; 6])) == TestResult::Fail);
    assert!(mooneye_verdict(None) == TestResult::Timeout);
    assert_eq!(boot_rom_for("boot-cgb0", Some(vec![1]), Some(vec![2])), Some(vec![2]));
    assert_eq!(boot_rom_for("boot-cgb0", Some(vec![1]), None), Some(vec![1]));
    assert_eq!(boot_rom_for("boot-cgb", Some(vec![1]), Some(vec![2])), Some(vec![1]));
    assert_eq!(boot_rom_for("boot-cgb0", None, Some(vec![2])), None);
    let m = find_mismatches(&[(0xFF00, 0xCF), (0xFF01, 0x00)], &[0xCF, 0x7F]);
    assert_eq!(m.len(), 1);
    assert_eq!((m[0].addr, m[0].expected, m[0].got), (0xFF01, 0x00, 0x7F));
}

#[test]
fn memory_verdicts() {
    assert!(gbmicrotest_verdict(0x01, 0, None) == TestResult::Pass);
    assert!(gbmicrotest_verdict(0xFF, 0, None) == TestResult::Fail);
    assert!(gbmicrotest_verdict(0x00, 0x55, Some(0x55)) == TestResult::Pass);
    assert!(gbmicrotest_verdict(0x00, 0x54, Some(0x55)) == TestResult::Fail);
    assert!(gbmicrotest_verdict(0x00, 0x55, None) == TestResult::Timeout);
    assert!(gbmicrotest_verdict(0x00, 0x00, Some(1)) == TestResult::Timeout);
    assert_eq!(frames_for("is_if_set_during_ime0.gb"), 30);
    assert_eq!(frames_for("other.gb"), 4);
}

#[test]
fn expected_values_are_found_before_the_store() {
    let mut rom = vec![0u8; 64];
    rom[10..13].copy_from_slice(&[0xFE, 0x12, 0x28]);
    rom[20..23].copy_from_slice(&[0xFE, 0x34, 0x28]);
    rom[30..33].copy_from_slice(&[0xEA, 0x00, 0x80]);
    assert_eq!(find_expected_value(&rom), Some(0x34));
    rom[20] = 0;
    assert_eq!(find_expected_value(&rom), Some(0x12));
    rom[10] = 0;
    assert_eq!(find_expected_value(&rom), None);
    assert_eq!(find_expected_value(&[0xEA, 0x00, 0x80]), None);
}

#[test]
fn names_say_what_is_shown() {
    let text = |v: &Option<Vec<char>>| v.as_ref().map(|c| c.iter().collect::<String>());
    let parse = |s: &str| parse_gambatte_test(s).map(|e| (text(&e.dmg_hex), text(&e.cgb_hex)));
    let some = |s: &str| Some(s.to_string());
    assert_eq!(parse("a_dmg08_cgb04c_outE4"), Some((some("E4"), some("E4"))));
    assert_eq!(parse("a_dmg08_out1f_cgb04c_out2"), Some((some("1F"), some("2"))));
    assert_eq!(parse("a_dmg08_out3"), Some((some("3"), None)));
    assert_eq!(parse("a_cgb04c_outAB_x"), Some((None, some("AB"))));
    assert_eq!(parse("a_out1_out2"), Some((None, some("2"))));
    assert_eq!(parse("a_dmg08_cgb04c_outaudio0"), None);
    assert_eq!(parse("a_dmg08_out"), None);
    assert_eq!(parse("nothing"), None);
}

#[test]
fn runs_by_model() {
    let e = parse_gambatte_test("a_dmg08_out1_cgb04c_out2").unwrap();
    let runs = plan_runs(e, None);
    assert_eq!(runs.len(), 2);
    assert_eq!((runs[0].model, runs[1].model), (GbModel::Dmg, GbModel::Cgb));
    assert_eq!(runs[1].hex, vec!['2']);
    let e = parse_gambatte_test("a_dmg08_out1").unwrap();
    assert!(plan_runs(e, Some(GbModel::Cgb)).is_empty());
    let e = parse_gambatte_test("a_dmg08_out1").unwrap();
    assert_eq!(plan_runs(e, Some(GbModel::Mgb))[0].model, GbModel::Mgb);
}

fn screen_with(digits: &[usize]) -> Vec<u32> {
    let mut fb = vec![0xFFF8_F8F8u32; 160 * 144];
    for (t, &d) in digits.iter().enumerate() {
        for y in 0..8 {
            for x in 0..8 {
                if DIGITS[d][y] >> (7 - x) & 1 == 1 {
                    fb[y * 160 + t * 8 + x] = 0xFF00_0000;
                }
            }
        }
    }
    fb
}

#[test]
fn digits_are_read_off_the_screen() {
    for d in 0..16 {
        let fb = screen_with(&[d]);
        for e in 0..16 {
            assert_eq!(gambatte_tile_matches(&fb, 0, e), d == e);
        }
        assert_eq!(read_digit(&fb, 0), Some(d));
    }
    let white = vec![0xFFFF_FFFFu32; 160 * 144];
    assert!(!gambatte_tile_matches(&white, 0, 1));
    assert_eq!(read_digit(&white, 3), None);
}

#[test]
fn screens_are_judged_digit_by_digit() {
    let fb = screen_with(&[0xE, 0x4]);
    assert!(check_screen(&fb, &['E', '4']) == TestResult::Pass);
    assert!(check_screen(&fb, &['E', '5']) == TestResult::Fail);
    assert!(check_screen(&fb, &['E', 'x']) == TestResult::Error);
    assert_eq!(gambatte_digit_index('a'), Some(10));
    assert_eq!(gambatte_digit_index('F'), Some(15));
    assert_eq!(gambatte_digit_index('g'), None);
}

#[test]
fn screens_are_compared_with_a_reference() {
    let dmg = [0xE0_F8D0, 0x88_C070, 0x34_6856, 0x08_1820];
    let mgb = [0xC4_CFA1, 0x8B_956D, 0x4D_533C, 0x1F_1F1F];
    assert_eq!(dmg_pixel_to_reference(0xFF88_C070, &dmg, &mgb), 0x00AA_AAAA);
    assert_eq!(dmg_pixel_to_reference(0x1F_1F1F, &dmg, &mgb), 0);
    assert_eq!(dmg_pixel_to_reference(0x00FF_FFFF, &dmg, &mgb), 0x00FF_FFFF);
    assert_eq!(dmg_pixel_to_reference(0x12_3456, &dmg, &mgb), 0xFF12_3456);
    let fb = vec![0xFFE0_F8D0; 160 * 144];
    let mut reference = vec![0x00FF_FFFF; 160 * 144];
    let c = compare_screens(&fb, &reference, GbModel::Dmg, &dmg, &mgb);
    assert_eq!(c.mismatches, 0);
    assert!(tearoom_verdict(&c) == TestResult::Pass);
    reference[161] = 0;
    reference[500] = 0;
    let c = compare_screens(&fb, &reference, GbModel::Dmg, &dmg, &mgb);
    assert_eq!(c.mismatches, 2);
    let first = c.first.unwrap();
    assert_eq!((first.x, first.y, first.ours, first.expected), (1, 1, 0x00FF_FFFF, 0));
    assert!(tearoom_verdict(&c) == TestResult::Fail);
    let c = compare_screens(&fb, &reference, GbModel::Cgb, &dmg, &mgb);
    assert_eq!(c.mismatches, 160 * 144);
    assert_eq!(reference_suffixes(GbModel::Cgb), ["_cgb_c.png", "_cgb_d.png"]);
    assert_eq!(reference_suffixes(GbModel::Dmg), ["_dmg_blob.png", "_dmg_b.png"]);
    assert_eq!(tearoom_model("m3-C", None), GbModel::Cgb);
    assert_eq!(tearoom_model("m3", None), GbModel::Dmg);
    assert_eq!(tearoom_model("m3", Some(GbModel::Mgb)), GbModel::Mgb);
}

#[test]
fn pictures_as_bytes() {
    assert_eq!(rgb_bytes(&[0xFF12_3456, 0x00AB_CDEF]), vec![0x12, 0x34, 0x56, 0xAB, 0xCD, 0xEF]);
    assert_eq!(argb_pixels(&[1, 2, 3, 4, 5, 6, 7, 8]), vec![0xFF01_0203, 0xFF05_0607]);
    assert!(wants_svg("svg", "a.png") && wants_svg("png", "a.svg") && !wants_svg("png", "a.png"));
}

#[test]
fn sound_files() {
    let w = wav_bytes(&[0x3F80_0000, 0xBF80_0000], 48_000);
    assert_eq!(w.len(), 52);
    assert_eq!(&w[0..4], b"RIFF");
    assert_eq!(w[4..8], [44, 0, 0, 0]);
    assert_eq!(&w[8..16], b"WAVEfmt ");
    assert_eq!(w[20..24], [3, 0, 2, 0]);
    assert_eq!(w[24..28], 48_000u32.to_le_bytes());
    assert_eq!(w[28..32], 384_000u32.to_le_bytes());
    assert_eq!(&w[36..40], b"data");
    assert_eq!(w[40..44], [8, 0, 0, 0]);
    assert_eq!(w[44..48], 1.0f32.to_le_bytes());
    assert_eq!(w[48..52], (-1.0f32).to_le_bytes());
}

#[test]
fn dumps_of_control_points() {
    assert_eq!(flag_names(0), "[]");
    assert_eq!(flag_names(1 | 128), "[\"JUNCTION\", \"ENDPOINT\"]");
    assert_eq!(flag_names(2 | 16 | 32 | 64), "[\"INTERIOR\", \"CORNER\", \"TJUNCTION\", \"CROSSING\"]");
    assert_eq!(argb_hex(0xFF0A_0B0C), "\"#0A0B0C\"");
    assert_eq!(edge_colors_json(&[1, 2], 2, 1, 1, 1, -1), "null");
    assert_eq!(edge_colors_json(&[1, 2], 2, 1, 1, 1, 0), "[\"#000001\", \"#000002\"]");
    let c = ControlPoint { x8: 8, y8: 8, prev: -1, next: 3, prev_dir: -1, next_dir: 2, flag: 1 };
    let n = CpNumbers {
        x: "1.0".to_string(),
        y: "2.0".to_string(),
        orig_x: "3.0".to_string(),
        orig_y: "4.0".to_string(),
        crossing_t: "0.5".to_string(),
    };
    let r = cp_record(&CpRecord { ci: 5, c, icx: 6, icy: 7, last: true }, &n, "null", "[]");
    assert_eq!(
        r,
        "    {\"ci\": 5, \"pos\": [1.0, 2.0], \"orig_pos\": [3.0, 4.0], \"prev_ci\": -1, \"next_ci\": 3, \
         \"prev_dir\": -1, \"next_dir\": 2, \"flag\": 1, \"flag_names\": [\"JUNCTION\"], \"crossing_t\": 0.5, \
         \"icx\": 6, \"icy\": 7, \"prev_edge_colors\": null, \"next_edge_colors\": []}\n"
    );
    assert!(belongs_to_stem(&[c], 0));
}

#[test]
fn overlays_tell_stems_and_ends_apart() {
    let at = |prev, next, flag| ControlPoint { x8: 0, y8: 0, prev, next, prev_dir: 0, next_dir: 2, flag };
    // An end, its neighbor, and points beyond.
    let cps = [at(-1, 1, 2 | 128), at(0, 2, 2), at(1, 3, 2), at(2, 2, 2)];
    assert_eq!(curve_color(&cps, 0), [255, 64, 255]);
    assert_eq!(curve_color(&cps, 1), [255, 64, 255]);
    assert_eq!(curve_color(&cps, 2), [0, 200, 255]);
    let end = mark_of(&cps[0]).unwrap();
    assert_eq!((end.color, end.radius), ([255, 255, 0], 8));
    let other = mark_of(&cps[1]).unwrap();
    assert_eq!((other.color, other.radius), ([0, 255, 0], 6));
    assert!(mark_of(&at(-1, -1, 0)).is_none());
}

#[test]
fn lines_run_from_end_to_end() {
    for &(x1, y1) in &[(7, 3), (-7, 3), (3, -7), (0, 5), (-4, -4), (0, 0)] {
        let p = line_pens(0, 0, x1, y1);
        assert_eq!((p[0].x, p[0].y), (0, 0));
        let last = p[p.len() - 1];
        assert_eq!((last.x, last.y), (x1 as i64, y1 as i64));
        assert_eq!(p.len() as i32, x1.abs().max(y1.abs()) + 1);
        for w in p.windows(2) {
            assert!((w[1].x - w[0].x).abs() <= 1 && (w[1].y - w[0].y).abs() <= 1);
        }
    }
}

#[test]
fn pictures_are_enlarged() {
    let src = [1, 2, 3, 9, 4, 5, 6, 9];
    let e = enlarge(&src, 2, 1, 2);
    assert_eq!(e.len(), 4 * 2 * 4);
    assert_eq!(e[0..8], [1, 2, 3, 255, 1, 2, 3, 255]);
    assert_eq!(e[8..12], [4, 5, 6, 255]);
    assert_eq!(e[16..20], [1, 2, 3, 255]);
    let r = enlarge_region(&src, 2, 1, -1, 0, 3, 1);
    assert_eq!(r[0..12], [0, 0, 0, 255, 1, 2, 3, 255, 4, 5, 6, 255]);
    assert_eq!(r[12..16], [0, 0, 0, 255]);
    let mut canvas = e;
    plot(&mut canvas, 4, 2, 1, 0, [255, 0, 101]);
    assert_eq!(canvas[4..8], [128, 1, 52, 255]);
    plot(&mut canvas, 4, 2, -1, 0, [255, 0, 101]);
    plot(&mut canvas, 4, 2, 4, 0, [255, 0, 101]);
    assert_eq!(canvas[0..4], [1, 2, 3, 255]);
}

#[test]
fn dots_have_a_rim() {
    assert!(dot_at(0, 6, 6) == Dot::Inside);
    assert!(dot_at(0, 7, 6) == Dot::Rim);
    assert!(dot_at(5, 5, 6) == Dot::Outside);
}

#[test]
fn the_right_edge_is_searched_for_yellow() {
    let mut fb = vec![0u32; 160 * 144];
    fb[155] = 0xFF_FF00;
    fb[10 * 160 + 159] = 0xC9_9763;
    fb[10 * 160 + 158] = 0xC8_9763;
    fb[20 * 160 + 154] = 0xFF_FF00;
    let e = analyze_right_edge(&fb);
    assert_eq!(e.count, 2);
    assert_eq!(e.rows, vec![0, 10]);
}

#[test]
fn traces_keep_the_last_thirty_steps() {
    let mut h = vec![];
    for i in 0..100u16 {
        push_history(
            &mut h,
            TraceEntry { pc: i, opcode: 0, timer_before: i, timer_after: i.wrapping_add(4) },
        );
    }
    assert_eq!(h.len(), 30);
    assert_eq!((h[0].pc, h[29].pc), (70, 99));
    assert_eq!(timer_delta(0xFFFE, 2), 4);
    assert!(boot_is_done(0x100, false) && !boot_is_done(0x100, true) && !boot_is_done(0, false));
    assert_eq!(calibrated_models().len(), 7);
}
