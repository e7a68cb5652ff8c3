//! A loaded game and the per-tick decisions of the native frontends: pacing,
//! rewind, fast-forward, slow motion, pause and frame advance, save states, the
//! printer and battery saves. The caller runs the emulator, reads and writes
//! files, and reads the clock.

use vstd::prelude::*;

use crate::model::GbModel;
use crate::text::decimal;
use crate::ui_util::{
    audio_frames, clean, frames_for_audio_queue, since, state_extension, SavFlusher,
    FAST_FORWARD_SPEED, REWIND_SPEED,
};

verus! {

/// Options that shape every emulator that a session builds.
#[derive(Clone, Debug)]
pub struct SessionConfig {
    /// Hardware model to force; otherwise it is found out from each game.
    pub model: Option<GbModel>,
    /// Boot ROM file that was chosen for the model at startup.
    pub bootrom: Option<String>,
    /// Skip the boot ROM.
    pub no_boot: bool,
    /// Run Super Game Boy games with the SNES side.
    pub lle: bool,
    /// SNES program file.
    pub snes_rom: Option<String>,
    /// Attach a printer.
    pub printer: bool,
    /// Frames to run ahead of the displayed one.
    pub runahead: u32,
    /// Audio samples per second.
    pub sample_rate: u32,
}

impl SessionConfig {
    pub open spec fn is_default(self) -> bool {
        &&& self.model is None
        &&& self.bootrom is None
        &&& !self.no_boot
        &&& !self.lle
        &&& self.snes_rom is None
        &&& !self.printer
        &&& self.runahead == 0
        &&& self.sample_rate == 96_000
    }
}

impl Default for SessionConfig {
    fn default() -> (r: Self)
        ensures
            r.is_default(),
    {
        SessionConfig {
            model: None,
            bootrom: None,
            no_boot: false,
            lle: false,
            snes_rom: None,
            printer: false,
            runahead: 0,
            sample_rate: 96_000,
        }
    }
}

/// Hotkeys that are held down, sampled every tick.
#[derive(Clone, Copy, Debug, PartialEq, Eq, Structural)]
pub struct HoldInputs {
    pub rewind: bool,
    pub fast_forward: bool,
    pub slow_motion: bool,
}

impl Default for HoldInputs {
    fn default() -> (r: Self)
        ensures
            r == (HoldInputs { rewind: false, fast_forward: false, slow_motion: false }),
    {
        HoldInputs { rewind: false, fast_forward: false, slow_motion: false }
    }
}

/// What a tick does.
#[derive(Clone, Copy, PartialEq, Eq, Structural)]
pub enum Play {
    /// Nothing; no audio is taken either.
    Rest,
    /// Emulate frames, running ahead on the last one.
    Forward { frames: u32 },
    /// Play back up to so many frames from the rewind buffer. The audio is
    /// reversed and shortened to the length of one frame.
    Backward { frames: u32 },
    /// Emulate frames without running ahead. The audio is shortened to the
    /// length of one frame.
    Fast { frames: u32 },
}

/// What a tick does, and whether the emulator is to know that it rewinds.
#[derive(Clone, Copy, PartialEq, Eq, Structural)]
pub struct TickPlan {
    pub rewinding: bool,
    pub play: Play,
}

/// How many frames a tick emulated.
#[derive(Clone, Copy, Debug, PartialEq, Eq, Structural)]
pub struct TickOutput {
    pub frames_stepped: u32,
    pub frames_rewound: u32,
    /// Time spent emulating.
    pub emu_time: u64,
}

impl Default for TickOutput {
    fn default() -> (r: Self)
        ensures
            r == (TickOutput { frames_stepped: 0, frames_rewound: 0, emu_time: 0 }),
    {
        TickOutput { frames_stepped: 0, frames_rewound: 0, emu_time: 0 }
    }
}

impl TickOutput {
    /// Frames emulated in either direction.
    pub fn frames_emulated(&self) -> (r: u32)
        requires
            self.frames_stepped + self.frames_rewound <= u32::MAX,
        ensures
            r == self.frames_stepped + self.frames_rewound,
    {
        self.frames_stepped + self.frames_rewound
    }
}

// ── Pacing ──

/// The clock of a session.
#[derive(Clone, Copy, PartialEq, Eq, Structural)]
pub struct Pacing {
    pub paused: bool,
    pub step_one_frame: bool,
    /// Time owed to emulation, for slow motion and without an audio device.
    pub time_debt: u64,
    pub last_tick: Option<u64>,
    /// Duration of one emulated frame.
    pub frame: u64,
}

pub open spec fn smaller(a: int, b: int) -> int {
    if a < b {
        a
    } else {
        b
    }
}

impl Pacing {
    /// A frame lasts some time, and never more than four frames are owed.
    pub open spec fn wf(self) -> bool {
        &&& 1 <= self.frame <= u64::MAX / 8
        &&& self.time_debt <= 4 * self.frame
    }

    /// Time owed at a tick: what was owed and what has passed, but no more than
    /// four frames.
    pub open spec fn owed(self, now: u64) -> int {
        let elapsed = match self.last_tick {
            Some(t) => since(now, t) as int,
            None => 0,
        };
        smaller(self.time_debt + elapsed, 4 * self.frame)
    }

    /// What a tick does.
    pub open spec fn plan(
        self,
        hold: HoldInputs,
        queued: Option<usize>,
        sample_rate: u32,
        now: u64,
    ) -> TickPlan {
        let play = if self.paused {
            if self.step_one_frame {
                Play::Forward { frames: 1 }
            } else {
                Play::Rest
            }
        } else if hold.rewind {
            Play::Backward { frames: REWIND_SPEED as u32 }
        } else if hold.fast_forward {
            Play::Fast { frames: FAST_FORWARD_SPEED as u32 }
        } else if hold.slow_motion {
            Play::Forward { frames: (self.owed(now) / (2 * self.frame)) as u32 }
        } else {
            match queued {
                Some(q) => Play::Forward { frames: audio_frames(q as int, sample_rate) },
                None => Play::Forward { frames: smaller(self.owed(now) / self.frame as int, 2) as u32 },
            }
        };
        TickPlan { rewinding: hold.rewind && !self.paused, play }
    }

    /// Time owed after a tick. Only slow motion and wall-clock pacing owe any.
    pub open spec fn debt_after(self, hold: HoldInputs, queued: Option<usize>, now: u64) -> int {
        if self.paused || hold.rewind || hold.fast_forward {
            0
        } else if hold.slow_motion {
            self.owed(now) % (2 * self.frame)
        } else if queued is Some {
            0
        } else {
            self.owed(now) - smaller(self.owed(now) / self.frame as int, 2) * self.frame
        }
    }

    /// The clock after a tick.
    pub open spec fn ticked(self, hold: HoldInputs, queued: Option<usize>, now: u64) -> Pacing {
        Pacing {
            paused: self.paused,
            step_one_frame: self.step_one_frame && !self.paused,
            time_debt: self.debt_after(hold, queued, now) as u64,
            last_tick: Some(now),
            frame: self.frame,
        }
    }

    /// The clock of a game that was just built.
    pub open spec fn restarted(self, frame: u64) -> Pacing {
        Pacing {
            paused: false,
            step_one_frame: false,
            time_debt: 0,
            last_tick: self.last_tick,
            frame,
        }
    }

    /// Decide what a tick does.
    pub fn tick(
        &mut self,
        hold: &HoldInputs,
        queued: Option<usize>,
        sample_rate: u32,
        now: u64,
    ) -> (r: TickPlan)
        requires
            old(self).wf(),
        ensures
            r == old(self).plan(*hold, queued, sample_rate, now),
            *final(self) == old(self).ticked(*hold, queued, now),
            final(self).wf(),
    {
        let frame: u64 = self.frame;
        let elapsed: u64 = match self.last_tick {
            Some(t) => if now >= t {
                now - t
            } else {
                0
            },
            None => 0,
        };
        self.last_tick = Some(now);
        let limit: u64 = 4 * frame;
        let owed: u64 = if elapsed >= limit {
            limit
        } else if self.time_debt + elapsed < limit {
            self.time_debt + elapsed
        } else {
            limit
        };
        assert(owed == old(self).owed(now));
        let rewinding: bool = hold.rewind && !self.paused;
        let play: Play = if self.paused {
            self.time_debt = 0;
            if self.step_one_frame {
                self.step_one_frame = false;
                Play::Forward { frames: 1 }
            } else {
                Play::Rest
            }
        } else if hold.rewind {
            self.time_debt = 0;
            Play::Backward { frames: REWIND_SPEED as u32 }
        } else if hold.fast_forward {
            self.time_debt = 0;
            Play::Fast { frames: FAST_FORWARD_SPEED as u32 }
        } else if hold.slow_motion {
            proof {
                lemma_few(owed as int, frame as int);
            }
            self.time_debt = owed % (2 * frame);
            Play::Forward { frames: (owed / (2 * frame)) as u32 }
        } else {
            match queued {
                Some(q) => {
                    self.time_debt = 0;
                    Play::Forward { frames: frames_for_audio_queue(q, sample_rate) }
                },
                None => {
                    proof {
                        lemma_few(owed as int, frame as int);
                    }
                    let whole: u64 = owed / frame;
                    let frames: u64 = if whole < 2 {
                        whole
                    } else {
                        2
                    };
                    assert(frames * frame <= owed) by (nonlinear_arith)
                        requires
                            frames <= whole,
                            whole * frame <= owed,
                            0 <= frame,
                    ;
                    self.time_debt = owed - frames * frame;
                    Play::Forward { frames: frames as u32 }
                },
            }
        };
        TickPlan { rewinding, play }
    }
}

proof fn lemma_few(owed: int, frame: int)
    requires
        1 <= frame,
        0 <= owed <= 4 * frame,
    ensures
        0 <= owed / (2 * frame) <= 2,
        0 <= owed / frame <= 4,
        (owed / frame) * frame <= owed,
        0 <= owed % (2 * frame) <= owed,
        (owed / (2 * frame)) * (2 * frame) + owed % (2 * frame) == owed,
{
    let d = 2 * frame;
    vstd::arithmetic::div_mod::lemma_fundamental_div_mod(owed, d);
    vstd::arithmetic::div_mod::lemma_fundamental_div_mod(owed, frame);
    let q = owed / d;
    let r = owed % d;
    let q1 = owed / frame;
    let r1 = owed % frame;
    assert(0 <= q <= 2 && q * d + r == owed) by (nonlinear_arith)
        requires
            owed == d * q + r,
            0 <= r < d,
            0 <= owed <= 2 * d,
    ;
    assert(0 <= q1 <= 4 && q1 * frame <= owed) by (nonlinear_arith)
        requires
            owed == frame * q1 + r1,
            0 <= r1 < frame,
            0 <= owed <= 4 * frame,
    ;
    assert(r <= owed) by (nonlinear_arith)
        requires
            q * d + r == owed,
            0 <= q,
            0 < d,
    ;
}

/// While paused nothing is emulated, whatever is held down, unless a frame
/// advance was requested; then it is one frame, once.
pub proof fn law_pause_holds(
    p: Pacing,
    hold: HoldInputs,
    queued: Option<usize>,
    sample_rate: u32,
    now: u64,
)
    requires
        p.wf(),
        p.paused,
    ensures
        p.plan(hold, queued, sample_rate, now).play == if p.step_one_frame {
            Play::Forward { frames: 1 }
        } else {
            Play::Rest
        },
        !p.plan(hold, queued, sample_rate, now).rewinding,
        p.ticked(hold, queued, now).paused,
        !p.ticked(hold, queued, now).step_one_frame,
        p.ticked(hold, queued, now).time_debt == 0,
{
}

/// Without an audio device no time is lost: the frames emulated and the time
/// still owed make up what was owed, at most two frames at a time.
pub proof fn law_wall_clock_keeps_time(p: Pacing, sample_rate: u32, now: u64)
    requires
        p.wf(),
        !p.paused,
    ensures
        ({
            let hold = HoldInputs { rewind: false, fast_forward: false, slow_motion: false };
            p.plan(hold, None, sample_rate, now).play matches Play::Forward { frames } && frames <= 2
                && frames * p.frame + p.ticked(hold, None, now).time_debt == p.owed(now)
        }),
{
    lemma_few(p.owed(now), p.frame as int);
    let owed = p.owed(now);
    let frames = smaller(owed / p.frame as int, 2);
    assert(0 <= frames * p.frame <= owed) by (nonlinear_arith)
        requires
            0 <= frames <= owed / p.frame as int,
            (owed / p.frame as int) * p.frame <= owed,
            1 <= p.frame,
    ;
}

/// Slow motion runs at half speed: every frame takes two frame durations.
pub proof fn law_slow_motion_is_half_speed(
    p: Pacing,
    queued: Option<usize>,
    sample_rate: u32,
    now: u64,
)
    requires
        p.wf(),
        !p.paused,
    ensures
        ({
            let hold = HoldInputs { rewind: false, fast_forward: false, slow_motion: true };
            p.plan(hold, queued, sample_rate, now).play matches Play::Forward { frames } && frames
                * (2 * p.frame) + p.ticked(hold, queued, now).time_debt == p.owed(now) && p.ticked(
                hold,
                queued,
                now,
            ).time_debt < 2 * p.frame
        }),
{
    lemma_few(p.owed(now), p.frame as int);
}

/// A stall of any length makes up for at most four frames.
pub proof fn law_a_stall_is_capped(p: Pacing, now: u64)
    requires
        p.wf(),
    ensures
        0 <= p.owed(now) <= 4 * p.frame,
{
}

/// Frames to run ahead while emulating frame `i` of `frames`: only the last one
/// is displayed, so only there.
pub fn runahead_at(i: u32, frames: u32, runahead: u32) -> (r: Option<u32>)
    requires
        i < frames,
    ensures
        r == if i == frames - 1 {
            Some(runahead)
        } else {
            None
        },
{
    if i == frames - 1 {
        Some(runahead)
    } else {
        None
    }
}

// ── Session ──

/// What is to be done when the emulator is replaced, in this order: write the
/// save of the outgoing game next to `save_for`, and build an emulator.
pub struct Rebuild {
    pub save_for: String,
    pub rom_path: String,
    pub model: GbModel,
}

/// A loaded game.
pub struct Session {
    pub rom_path: String,
    /// The model that the game asks for.
    pub detected: GbModel,
    pub model: GbModel,
    pub config: SessionConfig,
    pub flusher: SavFlusher,
    pub slot: usize,
    pub pacing: Pacing,
}

pub open spec fn model_for(forced: Option<GbModel>, detected: GbModel) -> GbModel {
    match forced {
        Some(m) => m,
        None => detected,
    }
}

/// What does not change when the emulator is replaced.
pub open spec fn same_settings(a: Session, b: Session) -> bool {
    &&& a.slot == b.slot
    &&& a.config.no_boot == b.config.no_boot
    &&& a.config.lle == b.config.lle
    &&& a.config.snes_rom == b.config.snes_rom
    &&& a.config.printer == b.config.printer
    &&& a.config.runahead == b.config.runahead
    &&& a.config.sample_rate == b.config.sample_rate
}

impl Session {
    /// The model is the forced one or the one that the game asks for.
    pub open spec fn wf(&self) -> bool {
        &&& self.model == model_for(self.config.model, self.detected)
        &&& self.pacing.wf()
    }

    /// A session for a game that was just loaded. `frame` is the duration of a
    /// frame, and `generation` that of the loaded save.
    pub fn new(
        rom_path: String,
        config: SessionConfig,
        detected: GbModel,
        frame: u64,
        generation: u64,
    ) -> (r: Self)
        requires
            1 <= frame <= u64::MAX / 8,
        ensures
            r.wf(),
            r.rom_path == rom_path,
            r.config == config,
            r.detected == detected,
            r.flusher == clean(generation),
            r.slot == 0,
            r.pacing == (Pacing {
                paused: false,
                step_one_frame: false,
                time_debt: 0,
                last_tick: None,
                frame,
            }),
    {
        let model: GbModel = match config.model {
            Some(m) => m,
            None => detected,
        };
        Session {
            rom_path,
            detected,
            model,
            config,
            flusher: SavFlusher::new(generation),
            slot: 0,
            pacing: Pacing {
                paused: false,
                step_one_frame: false,
                time_debt: 0,
                last_tick: None,
                frame,
            },
        }
    }

    pub fn rom_path(&self) -> (r: &str)
        ensures
            r@ == self.rom_path@,
    {
        self.rom_path.as_str()
    }

    /// The model that the emulator runs as.
    pub fn model(&self) -> (r: GbModel)
        ensures
            r == self.model,
    {
        self.model
    }

    /// The forced model, if one is forced.
    pub fn forced_model(&self) -> (r: Option<GbModel>)
        ensures
            r == self.config.model,
    {
        self.config.model
    }

    /// Duration of one emulated frame.
    pub fn frame_duration(&self) -> (r: u64)
        ensures
            r == self.pacing.frame,
    {
        self.pacing.frame
    }

    /// Switch to another game, which was read from `path`.
    pub fn load_rom(&mut self, path: String, detected: GbModel) -> (r: Rebuild)
        requires
            old(self).wf(),
        ensures
            final(self).wf(),
            final(self).rom_path == path,
            final(self).detected == detected,
            final(self).config == old(self).config,
            same_settings(*final(self), *old(self)),
            final(self).pacing == old(self).pacing,
            final(self).flusher == old(self).flusher,
            r.save_for@ == old(self).rom_path@,
            r.rom_path@ == path@,
            r.model == model_for(old(self).config.model, detected),
    {
        let save_for: String = self.rom_path.clone();
        let rom_path: String = path.clone();
        self.rom_path = path;
        self.detected = detected;
        self.model = match self.config.model {
            Some(m) => m,
            None => detected,
        };
        Rebuild { save_for, rom_path, model: self.model }
    }

    /// Power-cycle the game.
    pub fn reset(&self) -> (r: Rebuild)
        ensures
            r.save_for@ == self.rom_path@,
            r.rom_path@ == self.rom_path@,
            r.model == self.model,
    {
        Rebuild { save_for: self.rom_path.clone(), rom_path: self.rom_path.clone(), model: self.model }
    }

    /// Force a model, or none, and power-cycle. The boot ROM file is dropped: it
    /// was chosen for another model.
    pub fn set_model(&mut self, model: Option<GbModel>) -> (r: Rebuild)
        requires
            old(self).wf(),
        ensures
            final(self).wf(),
            final(self).config.model == model,
            final(self).config.bootrom is None,
            same_settings(*final(self), *old(self)),
            final(self).rom_path == old(self).rom_path,
            final(self).detected == old(self).detected,
            final(self).pacing == old(self).pacing,
            final(self).flusher == old(self).flusher,
            r.save_for@ == old(self).rom_path@,
            r.rom_path@ == old(self).rom_path@,
            r.model == model_for(model, old(self).detected),
    {
        self.config.model = model;
        self.config.bootrom = None;
        self.model = match model {
            Some(m) => m,
            None => self.detected,
        };
        self.reset()
    }

    /// The emulator was replaced: its save, just loaded, counts as written, and
    /// the clock starts anew.
    pub fn rebuilt(&mut self, frame: u64, generation: u64)
        requires
            old(self).wf(),
            1 <= frame <= u64::MAX / 8,
        ensures
            final(self).wf(),
            final(self).flusher == clean(generation),
            final(self).pacing == old(self).pacing.restarted(frame),
            final(self).rom_path == old(self).rom_path,
            final(self).detected == old(self).detected,
            final(self).model == old(self).model,
            final(self).config == old(self).config,
            final(self).slot == old(self).slot,
    {
        self.flusher = SavFlusher::new(generation);
        self.pacing.paused = false;
        self.pacing.step_one_frame = false;
        self.pacing.time_debt = 0;
        self.pacing.frame = frame;
    }

    pub fn printer_attached(&self) -> (r: bool)
        ensures
            r == self.config.printer,
    {
        self.config.printer
    }

    /// Connect or disconnect the printer. The choice stays when the emulator is
    /// replaced.
    pub fn set_printer(&mut self, on: bool)
        requires
            old(self).wf(),
        ensures
            final(self).wf(),
            final(self).config == (SessionConfig { printer: on, ..old(self).config }),
            final(self).rom_path == old(self).rom_path,
            final(self).detected == old(self).detected,
            final(self).model == old(self).model,
            final(self).flusher == old(self).flusher,
            final(self).slot == old(self).slot,
            final(self).pacing == old(self).pacing,
    {
        self.config.printer = on;
    }

    pub fn paused(&self) -> (r: bool)
        ensures
            r == self.pacing.paused,
    {
        self.pacing.paused
    }

    /// Everything but the clock is as it was.
    pub open spec fn only_pacing(self, old: Session) -> bool {
        &&& self.rom_path == old.rom_path
        &&& self.detected == old.detected
        &&& self.model == old.model
        &&& self.config == old.config
        &&& self.flusher == old.flusher
        &&& self.slot == old.slot
    }

    /// Pause, or go on. Gives whether it is paused now.
    pub fn toggle_pause(&mut self) -> (r: bool)
        requires
            old(self).wf(),
        ensures
            final(self).wf(),
            final(self).only_pacing(*old(self)),
            r == !old(self).pacing.paused,
            final(self).pacing == (Pacing {
                paused: r,
                step_one_frame: false,
                ..old(self).pacing
            }),
    {
        self.pacing.paused = !self.pacing.paused;
        self.pacing.step_one_frame = false;
        self.pacing.paused
    }

    /// While paused, emulate one frame at the next tick.
    pub fn request_frame_advance(&mut self)
        requires
            old(self).wf(),
        ensures
            final(self).wf(),
            final(self).only_pacing(*old(self)),
            final(self).pacing == (Pacing {
                step_one_frame: old(self).pacing.step_one_frame || old(self).pacing.paused,
                ..old(self).pacing
            }),
    {
        if self.pacing.paused {
            self.pacing.step_one_frame = true;
        }
    }

    /// The slot that the save and load keys use.
    pub fn slot(&self) -> (r: usize)
        ensures
            r == self.slot,
    {
        self.slot
    }

    pub fn select_slot(&mut self, slot: usize)
        requires
            old(self).wf(),
        ensures
            final(self).wf(),
            final(self).slot == slot,
            final(self).pacing == old(self).pacing,
            final(self).rom_path == old(self).rom_path,
            final(self).detected == old(self).detected,
            final(self).model == old(self).model,
            final(self).config == old(self).config,
            final(self).flusher == old(self).flusher,
    {
        self.slot = slot;
    }

    /// Where the state of a slot is kept: beside the game, with this extension.
    pub fn save_state(&self, slot: usize) -> (r: (&str, String))
        ensures
            r.0@ == self.rom_path@,
            r.1@ == decimal(slot as int) + ".ss"@,
    {
        (self.rom_path.as_str(), state_extension(slot))
    }

    /// Where a slot's state comes from: memory first, then the file beside the
    /// game, if there is one.
    pub fn load_state(&self, slot: usize, in_memory: bool, on_disk: bool) -> (r: StateSource)
        ensures
            r == if in_memory {
                StateSource::Memory
            } else if on_disk {
                StateSource::Disk
            } else {
                StateSource::Empty
            },
    {
        if in_memory {
            StateSource::Memory
        } else if on_disk {
            StateSource::Disk
        } else {
            StateSource::Empty
        }
    }

    /// The save is written now.
    pub fn flush_save(&mut self, generation: u64)
        requires
            old(self).wf(),
        ensures
            final(self).wf(),
            final(self).flusher == clean(generation),
            final(self).pacing == old(self).pacing,
            final(self).rom_path == old(self).rom_path,
            final(self).detected == old(self).detected,
            final(self).model == old(self).model,
            final(self).config == old(self).config,
            final(self).slot == old(self).slot,
    {
        self.flusher.flush(generation);
    }

    /// Decide what one tick of the frontend does. `audio_queued` counts the
    /// stereo frames that wait in the audio device's queue, if there is one.
    pub fn tick(&mut self, hold: &HoldInputs, audio_queued: Option<usize>, now: u64) -> (r: TickPlan)
        requires
            old(self).wf(),
        ensures
            final(self).wf(),
            final(self).only_pacing(*old(self)),
            r == old(self).pacing.plan(*hold, audio_queued, old(self).config.sample_rate, now),
            final(self).pacing == old(self).pacing.ticked(*hold, audio_queued, now),
    {
        self.pacing.tick(hold, audio_queued, self.config.sample_rate, now)
    }

    /// After each tick: whether the battery save is to be written.
    pub fn poll_save(&mut self, has_battery: bool, generation: u64, now: u64) -> (r: bool)
        requires
            old(self).wf(),
        ensures
            final(self).wf(),
            r == old(self).flusher.writes(has_battery, generation, now),
            final(self).flusher == old(self).flusher.polled(has_battery, generation, now),
            final(self).pacing == old(self).pacing,
            final(self).rom_path == old(self).rom_path,
            final(self).detected == old(self).detected,
            final(self).model == old(self).model,
            final(self).config == old(self).config,
            final(self).slot == old(self).slot,
    {
        self.flusher.poll(has_battery, generation, now)
    }
}

/// Where a state is loaded from.
#[derive(Clone, Copy, PartialEq, Eq, Structural)]
pub enum StateSource {
    Memory,
    Disk,
    Empty,
}

} // verus!
