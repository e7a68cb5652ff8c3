//! What the frontends decide: pacing, rewind, pause and frame advance, battery
//! saves, frame rate counting, boot ROMs and gamepads. Times are nanoseconds on
//! a clock that the caller reads; files and devices are left to the caller.

use vstd::prelude::*;

use crate::model::GbModel;
use crate::text::{decimal, padded_decimal, push_decimal, push_padded};

verus! {

// ── Boot ROMs ──

/// Default boot ROM path for each hardware model.
pub open spec fn boot_path(model: GbModel) -> Seq<char> {
    match model {
        GbModel::Dmg0 => "bootroms/dmg0_boot.bin"@,
        GbModel::Dmg => "bootroms/dmg_boot.bin"@,
        GbModel::Mgb => "bootroms/mgb_boot.bin"@,
        GbModel::Sgb => "bootroms/sgb_boot.bin"@,
        GbModel::Sgb2 => "bootroms/sgb2_boot.bin"@,
        GbModel::Cgb0 => "bootroms/cgb0_boot.bin"@,
        GbModel::Cgb => "bootroms/cgb_boot.bin"@,
        GbModel::Agb => "bootroms/cgb_agb_boot.bin"@,
    }
}

/// Default boot ROM path for each hardware model.
pub fn boot_rom_path(model: GbModel) -> (r: &'static str)
    ensures
        r@ == boot_path(model),
{
    match model {
        GbModel::Dmg0 => "bootroms/dmg0_boot.bin",
        GbModel::Dmg => "bootroms/dmg_boot.bin",
        GbModel::Mgb => "bootroms/mgb_boot.bin",
        GbModel::Sgb => "bootroms/sgb_boot.bin",
        GbModel::Sgb2 => "bootroms/sgb2_boot.bin",
        GbModel::Cgb0 => "bootroms/cgb0_boot.bin",
        GbModel::Cgb => "bootroms/cgb_boot.bin",
        GbModel::Agb => "bootroms/cgb_agb_boot.bin",
    }
}

/// What was found where a boot ROM may come from. Each is there if it could be
/// read.
pub struct BootRoms {
    /// The file that the user named, if any was named.
    pub explicit: Option<Option<Vec<u8>>>,
    /// The file for the model.
    pub file: Option<Vec<u8>>,
    /// The one that comes with the program.
    pub builtin: Option<Vec<u8>>,
}

/// The boot ROM to use: none without booting; a named file or nothing; else the
/// file for the model before the one that comes with the program.
pub open spec fn chosen_boot_rom(r: BootRoms, no_boot: bool) -> Option<Vec<u8>> {
    if no_boot {
        None
    } else if r.explicit is Some {
        r.explicit.unwrap()
    } else if r.file is Some {
        r.file
    } else {
        r.builtin
    }
}

/// The boot ROM to use.
pub fn load_boot_rom(found: BootRoms, no_boot: bool) -> (r: Option<Vec<u8>>)
    ensures
        r == chosen_boot_rom(found, no_boot),
{
    if no_boot {
        return None;
    }
    match found.explicit {
        Some(data) => data,
        None => match found.file {
            Some(data) => Some(data),
            None => found.builtin,
        },
    }
}

pub open spec fn is_sgb(model: GbModel) -> bool {
    model == GbModel::Sgb || model == GbModel::Sgb2
}

/// File names under which the program of the model's SNES side is looked for,
/// in order. There are none but for the two Super Game Boys.
pub open spec fn snes_rom_files(model: GbModel) -> Seq<Seq<char>> {
    match model {
        GbModel::Sgb2 => seq!["sgb2.program.rom"@, "sgb2.sfc"@],
        GbModel::Sgb => seq!["sgb1.program.rom"@, "sgb.sfc"@],
        _ => seq![],
    }
}

/// File names under which the program of the model's SNES side is looked for.
pub fn snes_rom_names(model: GbModel) -> (r: Vec<&'static str>)
    ensures
        r@.len() == snes_rom_files(model).len(),
        forall|i: int| 0 <= i < r@.len() ==> (#[trigger] r@[i])@ == snes_rom_files(model)[i],
{
    match model {
        GbModel::Sgb2 => vec!["sgb2.program.rom", "sgb2.sfc"],
        GbModel::Sgb => vec!["sgb1.program.rom", "sgb.sfc"],
        _ => Vec::new(),
    }
}

/// The SNES program to run: only for a Super Game Boy whose SNES side is
/// emulated, and there the given one before one that was found.
pub fn find_snes_rom(
    model: GbModel,
    lle: bool,
    explicit: Option<Vec<u8>>,
    found: Option<Vec<u8>>,
) -> (r: Option<Vec<u8>>)
    ensures
        r == if !is_sgb(model) || !lle {
            None
        } else if explicit is Some {
            explicit
        } else {
            found
        },
{
    let sgb: bool = match model {
        GbModel::Sgb | GbModel::Sgb2 => true,
        _ => false,
    };
    if !sgb || !lle {
        return None;
    }
    match explicit {
        Some(data) => Some(data),
        None => found,
    }
}

// ── Frame rate ──

/// Counts frames and the time spent emulating them, for a report once per
/// second.
#[derive(Clone, Copy)]
pub struct FpsCounter {
    pub timer: u64,
    pub count: u32,
    pub emu_total: u64,
}

/// One second in nanoseconds.
pub const SECOND: u64 = 1_000_000_000;

/// What happened since the last report.
#[derive(Clone, Copy, PartialEq, Eq, Structural)]
pub struct FpsReport {
    pub frames: u32,
    pub elapsed: u64,
    pub emu_total: u64,
}

pub open spec fn since(now: u64, then: u64) -> u64 {
    if now >= then {
        (now - then) as u64
    } else {
        0
    }
}

fn time_since(now: u64, then: u64) -> (r: u64)
    ensures
        r == since(now, then),
{
    if now >= then {
        now - then
    } else {
        0
    }
}

impl FpsCounter {
    /// Start counting at `now`.
    pub fn new(now: u64) -> (r: Self)
        ensures
            r == (FpsCounter { timer: now, count: 0, emu_total: 0 }),
    {
        FpsCounter { timer: now, count: 0, emu_total: 0 }
    }

    /// What is counted after some frames.
    pub open spec fn counted(self, frames: u32, emu_elapsed: u64) -> (u32, u64) {
        (
            (self.count + frames) as u32,
            if frames > 0 {
                (self.emu_total + emu_elapsed) as u64
            } else {
                self.emu_total
            },
        )
    }

    /// A report is due: a second has passed, and a frame was counted.
    pub open spec fn due(self, frames: u32, now: u64) -> bool {
        since(now, self.timer) >= SECOND && self.count + frames > 0
    }

    /// Record frames and the time spent on them. Once per second this gives a
    /// report and starts anew.
    pub fn update(&mut self, frames_stepped: u32, emu_elapsed: u64, now: u64) -> (r: Option<
        FpsReport,
    >)
        requires
            old(self).count + frames_stepped <= u32::MAX,
            old(self).emu_total + emu_elapsed <= u64::MAX,
        ensures
            ({
                let (count, emu_total) = old(self).counted(frames_stepped, emu_elapsed);
                if old(self).due(frames_stepped, now) {
                    &&& r == Some(
                        FpsReport { frames: count, elapsed: since(now, old(self).timer), emu_total },
                    )
                    &&& *final(self) == (FpsCounter { timer: now, count: 0, emu_total: 0 })
                } else {
                    &&& r == None::<FpsReport>
                    &&& *final(self) == (FpsCounter { timer: old(self).timer, count, emu_total })
                }
            }),
    {
        self.count = self.count + frames_stepped;
        if frames_stepped > 0 {
            self.emu_total = self.emu_total + emu_elapsed;
        }
        let elapsed: u64 = time_since(now, self.timer);
        if elapsed >= SECOND && self.count > 0 {
            let report = FpsReport { frames: self.count, elapsed, emu_total: self.emu_total };
            self.count = 0;
            self.emu_total = 0;
            self.timer = now;
            Some(report)
        } else {
            None
        }
    }
}

// ── File names ──

/// Extension of the file that holds a save state.
pub fn state_extension(slot: usize) -> (r: String)
    ensures
        r@ == decimal(slot as int) + ".ss"@,
{
    let mut r: String = String::new();
    push_decimal(&mut r, slot as u64);
    r.append(".ss");
    assert(r@ =~= decimal(slot as int) + ".ss"@);
    r
}

/// Name of the file for a print.
pub fn print_file_name(idx: u32) -> (r: String)
    ensures
        r@ == "print_"@ + (if decimal(idx as int).len() < 4 {
            padded_decimal(idx as int, 4)
        } else {
            decimal(idx as int)
        }) + ".png"@,
{
    let mut r: String = String::new();
    r.append("print_");
    push_padded(&mut r, idx as u64, 4);
    r.append(".png");
    assert(r@ =~= "print_"@ + (if decimal(idx as int).len() < 4 {
        padded_decimal(idx as int, 4)
    } else {
        decimal(idx as int)
    }) + ".png"@);
    r
}

// ── Battery saves ──

/// Whether the battery save of a game is to be written: it has a battery, and
/// there is something to save.
pub fn flush_sav(has_battery: bool, data: &[u8]) -> (r: bool)
    ensures
        r == (has_battery && data@.len() > 0),
{
    has_battery && data.len() > 0
}

/// Tracks the battery save for periodic writing. The generation changes when
/// the game writes its save memory. A changed save is written once it has been
/// stable for a second, so that no half-written save is caught, or when it has
/// kept changing for ten.
#[derive(Clone, Copy)]
pub struct SavFlusher {
    pub flushed_generation: u64,
    pub seen_generation: u64,
    /// When the save first became dirty and when it last changed.
    pub dirty: Option<(u64, u64)>,
}

/// How long a save must be stable.
pub const SETTLE: u64 = 1_000_000_000;

/// How long a save that keeps changing may wait.
pub const MAX_DELAY: u64 = 10_000_000_000;

/// A flusher that has nothing to write.
pub open spec fn clean(generation: u64) -> SavFlusher {
    SavFlusher { flushed_generation: generation, seen_generation: generation, dirty: None }
}

impl SavFlusher {
    /// When the save became dirty and when it last changed, as of now.
    pub open spec fn times(self, generation: u64, now: u64) -> (u64, u64) {
        let (first, last) = match self.dirty {
            Some(t) => t,
            None => (now, now),
        };
        (
            first,
            if generation != self.seen_generation {
                now
            } else {
                last
            },
        )
    }

    /// The save is written at this poll.
    pub open spec fn writes(self, has_battery: bool, generation: u64, now: u64) -> bool {
        let (first, last) = self.times(generation, now);
        has_battery && generation != self.flushed_generation && (since(now, last) >= SETTLE
            || since(now, first) >= MAX_DELAY)
    }

    /// The flusher after a poll.
    pub open spec fn polled(self, has_battery: bool, generation: u64, now: u64) -> SavFlusher {
        if !has_battery {
            self
        } else if generation == self.flushed_generation {
            SavFlusher { dirty: None, ..self }
        } else if self.writes(has_battery, generation, now) {
            clean(generation)
        } else {
            SavFlusher {
                seen_generation: generation,
                dirty: Some(self.times(generation, now)),
                ..self
            }
        }
    }

    /// A flusher for a game that was just loaded: what was loaded counts as
    /// written.
    pub fn new(generation: u64) -> (r: Self)
        ensures
            r == clean(generation),
    {
        SavFlusher { flushed_generation: generation, seen_generation: generation, dirty: None }
    }

    /// Call this every frame. The save is to be written when this gives true.
    pub fn poll(&mut self, has_battery: bool, generation: u64, now: u64) -> (write: bool)
        ensures
            write == old(self).writes(has_battery, generation, now),
            *final(self) == old(self).polled(has_battery, generation, now),
    {
        if !has_battery {
            return false;
        }
        if generation == self.flushed_generation {
            self.dirty = None;
            return false;
        }
        let (first, mut last) = match self.dirty {
            Some(t) => t,
            None => (now, now),
        };
        if generation != self.seen_generation {
            self.seen_generation = generation;
            last = now;
        }
        self.dirty = Some((first, last));
        if time_since(now, last) >= SETTLE || time_since(now, first) >= MAX_DELAY {
            self.flush(generation);
            true
        } else {
            false
        }
    }

    /// The save is written, whatever the state.
    pub fn flush(&mut self, generation: u64)
        ensures
            *final(self) == clean(generation),
    {
        self.flushed_generation = generation;
        self.seen_generation = generation;
        self.dirty = None;
    }
}

/// After a save was written it is not written again until it changes.
pub proof fn law_a_clean_save_is_not_written(
    f: SavFlusher,
    has_battery: bool,
    generation: u64,
    now: u64,
    later: u64,
)
    requires
        f.writes(has_battery, generation, now),
    ensures
        ({
            let g = f.polled(has_battery, generation, now);
            &&& !g.writes(has_battery, generation, later)
            &&& g.polled(has_battery, generation, later) == g
        }),
{
}

/// A save that changed and then stays is written a second after its last
/// change was seen, and not before, unless it has been dirty for ten seconds.
pub proof fn law_a_settled_save_is_written(f: SavFlusher, generation: u64, now: u64, later: u64)
    requires
        generation != f.flushed_generation,
        generation != f.seen_generation,
        !f.writes(true, generation, now),
        now <= later,
    ensures
        ({
            let g = f.polled(true, generation, now);
            &&& later - now >= SETTLE ==> g.writes(true, generation, later)
            &&& later - now < SETTLE && g.writes(true, generation, later) ==> since(
                later,
                g.dirty.unwrap().0,
            ) >= MAX_DELAY
        }),
{
}

/// A save that keeps changing is written when it has been dirty for ten
/// seconds.
pub proof fn law_a_restless_save_is_written(
    f: SavFlusher,
    generation: u64,
    next_generation: u64,
    now: u64,
    later: u64,
)
    requires
        f.dirty is Some,
        generation != f.flushed_generation,
        next_generation != f.flushed_generation,
        !f.writes(true, generation, now),
        since(later, f.dirty.unwrap().0) >= MAX_DELAY,
    ensures
        f.polled(true, generation, now).writes(true, next_generation, later),
{
}

// ── Audio pacing ──

/// Rewind plays back this many frames per tick.
pub const REWIND_SPEED: usize = 3;

/// Fast-forward emulates this many frames per tick.
pub const FAST_FORWARD_SPEED: usize = 4;

/// About this many video frames' worth of audio is kept queued.
pub const AUDIO_TARGET_FRAMES: usize = 3;

/// Above this many video frames' worth of audio no frame is emulated.
pub const AUDIO_MAX_FRAMES: usize = 8;

/// Capacity of an audio ring, in video frames' worth of audio.
pub const AUDIO_RING_FRAMES: usize = 16;

/// Stereo frames of audio per video frame.
pub open spec fn per_video_frame(sample_rate: u32) -> int {
    sample_rate as int / 60
}

fn audio_frames_per_video_frame(sample_rate: u32) -> (r: usize)
    ensures
        r == per_video_frame(sample_rate),
        r <= 71582788,
{
    sample_rate as usize / 60
}

/// Capacity, in stereo frames, for an audio ring fed at a sample rate.
pub fn audio_ring_capacity(sample_rate: u32) -> (r: usize)
    ensures
        r == per_video_frame(sample_rate) * AUDIO_RING_FRAMES,
{
    audio_frames_per_video_frame(sample_rate) * AUDIO_RING_FRAMES
}

/// Frames to emulate in a tick while `queued` stereo frames of audio wait: two
/// when the queue runs low, none when it runs over.
pub open spec fn audio_frames(queued: int, sample_rate: u32) -> u32 {
    if queued < per_video_frame(sample_rate) * AUDIO_TARGET_FRAMES / 2 {
        2
    } else if queued > per_video_frame(sample_rate) * AUDIO_MAX_FRAMES {
        0
    } else {
        1
    }
}

/// Frames to emulate in a tick while `queued` stereo frames of audio wait.
pub fn frames_for_audio_queue(queued: usize, sample_rate: u32) -> (r: u32)
    ensures
        r == audio_frames(queued as int, sample_rate),
{
    let per_frame: usize = audio_frames_per_video_frame(sample_rate);
    if queued < per_frame * AUDIO_TARGET_FRAMES / 2 {
        2
    } else if queued > per_frame * AUDIO_MAX_FRAMES {
        0
    } else {
        1
    }
}

/// The fuller the queue, the fewer frames are emulated; and a full ring is over
/// the limit, so that the limit can be reached.
pub proof fn law_audio_pacing(queued: int, more: int, sample_rate: u32)
    requires
        queued <= more,
    ensures
        audio_frames(more, sample_rate) <= audio_frames(queued, sample_rate),
        sample_rate >= 60 ==> audio_frames(
            per_video_frame(sample_rate) * AUDIO_RING_FRAMES,
            sample_rate,
        ) == 0,
        sample_rate >= 60 ==> audio_frames(0, sample_rate) == 2,
        audio_frames(per_video_frame(sample_rate) * AUDIO_TARGET_FRAMES, sample_rate) == 1,
{
}

} // verus!
