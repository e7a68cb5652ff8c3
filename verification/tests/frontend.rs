use std::collections::HashMap;

use vibeboy::gamepad::{gamepad_state, no_gamepad, GamepadSlot, Pressed, Rumble, Tilt};
use vibeboy::model::GbModel;
use vibeboy::session::{
    runahead_at, HoldInputs, Play, Rebuild, Session, SessionConfig, StateSource, TickOutput,
};
use vibeboy::ui_util::{
    audio_ring_capacity, boot_rom_path, find_snes_rom, flush_sav, frames_for_audio_queue,
    load_boot_rom, print_file_name, snes_rom_names, state_extension, BootRoms, FpsCounter,
    SavFlusher, AUDIO_MAX_FRAMES, SECOND,
};

const RATE: u32 = 48_000;

/// A queue fill that makes audio-driven pacing step exactly one frame.
const STEADY_QUEUE: Option<usize> = Some(RATE as usize / 60 * 4);

const FRAME: u64 = 16_742_706;

fn session() -> Session {
    Session::new(
        "game.gb".to_string(),
        SessionConfig { no_boot: true, sample_rate: RATE, ..Default::default() },
        GbModel::Dmg,
        FRAME,
        0,
    )
}

/// A machine that counts its frames and keeps the counts for rewinding.
struct Machine {
    counter: u8,
    history: Vec<u8>,
    rewinding: bool,
}

impl Machine {
    fn new() -> Machine {
        Machine { counter: 0, history: Vec::new(), rewinding: false }
    }

    fn step(&mut self) {
        self.history.push(self.counter);
        self.counter = self.counter.wrapping_add(1);
    }

    /// Go back to the state before a frame and run it again.
    fn rewind(&mut self) -> bool {
        match self.history.pop() {
            Some(before) => {
                self.counter = before.wrapping_add(1);
                true
            }
            None => false,
        }
    }

    fn tick(
        &mut self,
        s: &mut Session,
        hold: &HoldInputs,
        queued: Option<usize>,
        now: u64,
    ) -> TickOutput {
        let plan = s.tick(hold, queued, now);
        self.rewinding = plan.rewinding;
        let mut out = TickOutput::default();
        match plan.play {
            Play::Rest => {}
            Play::Forward { frames } | Play::Fast { frames } => {
                for _ in 0..frames {
                    self.step();
                }
                out.frames_stepped = frames;
            }
            Play::Backward { frames } => {
                for _ in 0..frames {
                    if !self.rewind() {
                        break;
                    }
                    out.frames_rewound += 1;
                }
            }
        }
        out
    }
}

#[test]
fn audio_pacing_thresholds_are_reachable() {
    let per_frame = RATE as usize / 60;
    assert_eq!(frames_for_audio_queue(0, RATE), 2);
    assert_eq!(frames_for_audio_queue(per_frame * 4, RATE), 1);
    assert_eq!(frames_for_audio_queue(per_frame * 9, RATE), 0);
    assert!(audio_ring_capacity(RATE) > per_frame * AUDIO_MAX_FRAMES);
}

#[test]
fn fuller_queues_step_fewer_frames() {
    let mut last = 2;
    for queued in 0..20_000 {
        let frames = frames_for_audio_queue(queued, RATE);
        assert!(frames <= last);
        last = frames;
    }
    assert_eq!(last, 0);
    assert_eq!(frames_for_audio_queue(audio_ring_capacity(RATE), RATE), 0);
}

#[test]
fn normal_tick_follows_audio_queue() {
    let mut s = session();
    let mut m = Machine::new();
    let hold = HoldInputs::default();
    let start = m.counter;
    assert_eq!(m.tick(&mut s, &hold, Some(0), 1).frames_stepped, 2);
    assert_eq!(m.tick(&mut s, &hold, STEADY_QUEUE, 2).frames_stepped, 1);
    assert_eq!(m.tick(&mut s, &hold, Some(RATE as usize), 3).frames_stepped, 0);
    assert_eq!(m.counter, start.wrapping_add(3));
}

#[test]
fn fast_forward_steps_four_frames() {
    let mut s = session();
    let mut m = Machine::new();
    let start = m.counter;
    let hold = HoldInputs { fast_forward: true, ..Default::default() };
    let out = m.tick(&mut s, &hold, STEADY_QUEUE, 1);
    assert_eq!(out.frames_stepped, 4);
    assert_eq!(m.counter, start.wrapping_add(4));
    assert!(matches!(s.tick(&hold, STEADY_QUEUE, 2).play, Play::Fast { frames: 4 }));
}

#[test]
fn rewind_goes_back_without_stepping_forward() {
    let mut s = session();
    let mut m = Machine::new();
    for now in 0..10 {
        m.tick(&mut s, &HoldInputs::default(), STEADY_QUEUE, now);
    }
    let before = m.counter;
    let hold = HoldInputs { rewind: true, ..Default::default() };
    // An empty queue would make normal pacing step two frames.
    let out = m.tick(&mut s, &hold, Some(0), 10);
    assert_eq!(out.frames_stepped, 0);
    assert_eq!(out.frames_rewound, 3);
    // Rewinding one frame restores the state before a frame and runs it
    // again, so three rewinds land two frames back.
    assert_eq!(m.counter, before.wrapping_sub(2));
    assert!(m.rewinding);
    m.tick(&mut s, &HoldInputs::default(), STEADY_QUEUE, 11);
    assert!(!m.rewinding);
}

#[test]
fn pause_holds_until_frame_advance() {
    let mut s = session();
    let mut m = Machine::new();
    m.tick(&mut s, &HoldInputs::default(), STEADY_QUEUE, 1);
    assert!(s.toggle_pause());
    assert!(s.paused());
    let start = m.counter;
    let held = HoldInputs { rewind: true, fast_forward: true, slow_motion: true };
    assert_eq!(m.tick(&mut s, &held, Some(0), 2).frames_emulated(), 0);
    assert_eq!(m.counter, start);

    s.request_frame_advance();
    let out = m.tick(&mut s, &HoldInputs::default(), Some(0), 3);
    assert_eq!(out.frames_stepped, 1);
    assert_eq!(m.counter, start.wrapping_add(1));
    assert_eq!(m.tick(&mut s, &HoldInputs::default(), Some(0), 4).frames_stepped, 0);

    assert!(!s.toggle_pause());
    s.request_frame_advance(); // ignored while running
    assert_eq!(m.tick(&mut s, &HoldInputs::default(), STEADY_QUEUE, 5).frames_stepped, 1);
}

#[test]
fn slow_motion_runs_at_half_speed() {
    let mut s = session();
    let mut m = Machine::new();
    let hold = HoldInputs { slow_motion: true, ..Default::default() };
    let frame = s.frame_duration();
    let t0 = 1_000_000_000;
    m.tick(&mut s, &hold, STEADY_QUEUE, t0);
    let mut frames = 0;
    for i in 1..=4 {
        frames += m.tick(&mut s, &hold, STEADY_QUEUE, t0 + frame * i).frames_stepped;
    }
    assert_eq!(frames, 2);
}

#[test]
fn no_audio_device_paces_by_wall_clock() {
    let mut s = session();
    let mut m = Machine::new();
    let hold = HoldInputs::default();
    let frame = s.frame_duration();
    let t0 = 5;
    assert_eq!(m.tick(&mut s, &hold, None, t0).frames_stepped, 0);
    assert_eq!(m.tick(&mut s, &hold, None, t0 + frame).frames_stepped, 1);
    assert_eq!(m.tick(&mut s, &hold, None, t0 + frame * 3).frames_stepped, 2);
}

#[test]
fn a_stall_makes_up_for_four_frames_at_most() {
    let mut s = session();
    let hold = HoldInputs::default();
    s.tick(&hold, None, 0);
    let mut total = 0;
    for _ in 0..10 {
        total += Machine::new().tick(&mut s, &hold, None, FRAME * 1000).frames_stepped;
    }
    assert_eq!(total, 4);
}

/// Save files by the game they belong to, and the cartridge memory of the game
/// that is running.
struct Cartridge {
    saves: HashMap<String, u8>,
    ram: u8,
    model: GbModel,
    printer: bool,
    generation: u64,
}

impl Cartridge {
    fn write(&mut self, val: u8) {
        self.ram = val;
        self.generation += 1;
    }

    /// Do what a replaced emulator asks for.
    fn rebuild(&mut self, s: &mut Session, r: Rebuild) {
        s.flush_save(self.generation);
        self.saves.insert(r.save_for, self.ram);
        self.ram = self.saves.get(&r.rom_path).copied().unwrap_or(0);
        self.model = r.model;
        self.printer = s.printer_attached();
        self.generation = 0;
        s.rebuilt(FRAME, self.generation);
    }
}

#[test]
fn reset_and_rom_switch_flush_the_save_first() {
    let mut s = session();
    let mut c = Cartridge {
        saves: HashMap::new(),
        ram: 0,
        model: s.model(),
        printer: false,
        generation: 0,
    };
    s.set_printer(true);

    c.write(0x55);
    let r = s.reset();
    c.rebuild(&mut s, r);
    assert_eq!(c.saves["game.gb"], 0x55);
    assert_eq!(c.ram, 0x55, "reset reloads the save");
    assert!(c.printer);

    c.write(0x66);
    let r = s.set_model(Some(GbModel::Mgb));
    c.rebuild(&mut s, r);
    assert_eq!(c.saves["game.gb"], 0x66);
    assert_eq!(c.model, GbModel::Mgb);
    assert_eq!(s.forced_model(), Some(GbModel::Mgb));

    c.write(0x77);
    s.toggle_pause();
    let r = s.load_rom("b.gb".to_string(), GbModel::Cgb);
    c.rebuild(&mut s, r);
    assert_eq!(c.saves["game.gb"], 0x77);
    assert_eq!(s.rom_path(), "b.gb");
    assert!(!c.saves.contains_key("b.gb"));
    assert!(c.printer);
    assert!(!s.paused());
    assert_eq!(s.model(), GbModel::Mgb);
    assert_eq!(s.set_model(None).model, GbModel::Cgb);
}

#[test]
fn slots_name_their_files() {
    let mut s = session();
    assert_eq!(s.slot(), 0);
    s.select_slot(7);
    assert_eq!(s.slot(), 7);
    assert_eq!(s.save_state(12), ("game.gb", "12.ss".to_string()));
    assert_eq!(state_extension(0), "0.ss");
    assert!(s.load_state(1, true, false) == StateSource::Memory);
    assert!(s.load_state(1, false, true) == StateSource::Disk);
    assert!(s.load_state(1, false, false) == StateSource::Empty);
    assert_eq!(print_file_name(7), "print_0007.png");
    assert_eq!(print_file_name(12345), "print_12345.png");
}

#[test]
fn run_ahead_only_on_the_displayed_frame() {
    assert_eq!(runahead_at(0, 2, 3), None);
    assert_eq!(runahead_at(1, 2, 3), Some(3));
    let out = TickOutput { frames_stepped: 2, frames_rewound: 3, emu_time: 0 };
    assert_eq!(out.frames_emulated(), 5);
}

#[test]
fn saves_are_written_once_settled() {
    let mut f = SavFlusher::new(3);
    assert!(!f.poll(true, 3, 0));
    assert!(!f.poll(true, 4, SECOND));
    assert!(!f.poll(true, 4, 2 * SECOND - 1));
    assert!(f.poll(true, 4, 2 * SECOND));
    assert!(!f.poll(true, 4, 100 * SECOND));
    assert!(!f.poll(false, 5, 200 * SECOND));
}

#[test]
fn restless_saves_are_written_after_ten_seconds() {
    let mut f = SavFlusher::new(0);
    let mut written = vec![];
    for i in 1..=21u64 {
        if f.poll(true, i, i * SECOND / 2) {
            written.push(i);
        }
    }
    assert_eq!(written, vec![21]);
}

#[test]
fn session_polls_and_flushes_its_save() {
    let mut s = session();
    assert!(!s.poll_save(true, 1, 0));
    assert!(s.poll_save(true, 1, SECOND));
    assert!(!s.poll_save(true, 2, 2 * SECOND));
    s.flush_save(2);
    assert!(!s.poll_save(true, 2, 9 * SECOND));
    assert!(flush_sav(true, &[1]));
    assert!(!flush_sav(true, &[]));
    assert!(!flush_sav(false, &[1]));
}

#[test]
fn frame_rate_is_reported_once_per_second() {
    let mut c = FpsCounter::new(0);
    assert!(c.update(1, 5, SECOND / 2).is_none());
    let r = c.update(2, 7, SECOND).unwrap();
    assert_eq!((r.frames, r.elapsed, r.emu_total), (3, SECOND, 12));
    assert!(c.update(0, 9, 2 * SECOND).is_none());
    let r = c.update(1, 4, 3 * SECOND).unwrap();
    assert_eq!((r.frames, r.elapsed, r.emu_total), (1, 2 * SECOND, 4));
}

#[test]
fn boot_roms_by_preference() {
    assert_eq!(boot_rom_path(GbModel::Agb), "bootroms/cgb_agb_boot.bin");
    assert_eq!(boot_rom_path(GbModel::Dmg0), "bootroms/dmg0_boot.bin");
    let found = |e, f: Option<u8>, b: Option<u8>| BootRoms {
        explicit: e,
        file: f.map(|x| vec![x]),
        builtin: b.map(|x| vec![x]),
    };
    assert_eq!(load_boot_rom(found(None, Some(1), Some(2)), false), Some(vec![1]));
    assert_eq!(load_boot_rom(found(None, None, Some(2)), false), Some(vec![2]));
    assert_eq!(load_boot_rom(found(Some(None), Some(1), Some(2)), false), None);
    assert_eq!(load_boot_rom(found(Some(Some(vec![9])), Some(1), None), false), Some(vec![9]));
    assert_eq!(load_boot_rom(found(Some(Some(vec![9])), Some(1), None), true), None);
}

#[test]
fn snes_programs_only_for_super_game_boys() {
    assert_eq!(snes_rom_names(GbModel::Sgb), vec!["sgb1.program.rom", "sgb.sfc"]);
    assert_eq!(snes_rom_names(GbModel::Sgb2), vec!["sgb2.program.rom", "sgb2.sfc"]);
    assert!(snes_rom_names(GbModel::Cgb).is_empty());
    assert_eq!(find_snes_rom(GbModel::Dmg, true, Some(vec![1]), None), None);
    assert_eq!(find_snes_rom(GbModel::Sgb, false, Some(vec![1]), None), None);
    assert_eq!(find_snes_rom(GbModel::Sgb, true, Some(vec![1]), Some(vec![2])), Some(vec![1]));
    assert_eq!(find_snes_rom(GbModel::Sgb, true, None, Some(vec![2])), Some(vec![2]));
}

#[test]
fn default_configuration() {
    let c = SessionConfig::default();
    assert_eq!(c.sample_rate, 96_000);
    assert!(c.model.is_none() && !c.printer && c.runahead == 0);
}

#[test]
fn gamepad_buttons_and_sticks() {
    let bits = [0x10, 0x20, 0x80, 0x40, 0x04, 0x08, 0x02, 0x01];
    let mut p = Pressed {
        buttons: [false; 8],
        stick_x: Tilt::Rest,
        stick_y: Tilt::Rest,
        left_shoulder: true,
        right_shoulder: false,
    };
    p.buttons[0] = true;
    p.stick_x = Tilt::Negative;
    p.stick_y = Tilt::Positive;
    let s = gamepad_state(&p, &bits);
    assert_eq!(s.buttons, 0x10 | 0x02 | 0x04);
    assert!(s.rewind && !s.fast_forward);
    assert_eq!(no_gamepad().buttons, 0);
}

#[test]
fn gamepad_slot_and_rumble() {
    let mut g = GamepadSlot::new();
    assert!(g.connected(5));
    assert!(!g.connected(6));
    assert_eq!(g.ensure_rumble(), Some(5));
    g.effect_made(5);
    assert_eq!(g.ensure_rumble(), None);
    assert!(g.set_rumble(true) == Rumble::Play);
    assert!(g.set_rumble(true) == Rumble::Leave);
    assert!(g.set_rumble(false) == Rumble::Stop);
    assert!(!g.disconnected(6));
    assert!(g.disconnected(5));
    assert_eq!(g.active, None);
    assert!(g.set_rumble(true) == Rumble::Leave);
}
