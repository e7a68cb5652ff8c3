//! The hardware model that a test program is meant for, and its boot ROMs.

use vstd::prelude::*;

use crate::model::GbModel;
use crate::text::{chars_of, contains, ends_with, has, has_suffix};

verus! {

/// The model that the flag in a game's header asks for.
pub open spec fn header_model(rom: Seq<u8>) -> GbModel {
    if rom.len() > 0x143 && (rom[0x143] == 0x80 || rom[0x143] == 0xC0) {
        GbModel::Cgb
    } else {
        GbModel::Dmg
    }
}

/// The model that the end of a program's name asks for.
pub open spec fn suffix_model(stem: Seq<char>) -> Option<GbModel> {
    if ends_with(stem, "-dmgABCmgb"@) || ends_with(stem, "-dmgABC"@) {
        Some(GbModel::Dmg)
    } else if ends_with(stem, "-dmg0"@) {
        Some(GbModel::Dmg0)
    } else if ends_with(stem, "-mgb"@) {
        Some(GbModel::Mgb)
    } else if ends_with(stem, "-sgb2"@) {
        Some(GbModel::Sgb2)
    } else if ends_with(stem, "-sgb"@) || ends_with(stem, "-S"@) {
        Some(GbModel::Sgb)
    } else if ends_with(stem, "-A"@) {
        Some(GbModel::Agb)
    } else if ends_with(stem, "-cgb0"@) {
        Some(GbModel::Cgb0)
    } else if ends_with(stem, "-C"@) || ends_with(stem, "-cgb"@) || ends_with(stem, "-cgbABCDE"@) {
        Some(GbModel::Cgb)
    } else if ends_with(stem, "-GS"@) || ends_with(stem, "-G"@) {
        Some(GbModel::Dmg)
    } else {
        None
    }
}

/// The model for a test program: that of the tests for a bug of the first
/// model, then what the name asks for, then what the header asks for.
pub open spec fn test_model(path: Seq<char>, stem: Seq<char>, rom: Option<Seq<u8>>) -> GbModel {
    if contains(path, "oam_bug"@) {
        GbModel::Dmg
    } else {
        match suffix_model(stem) {
            Some(m) => m,
            None => match rom {
                Some(data) => header_model(data),
                None => GbModel::Cgb,
            },
        }
    }
}

fn model_of_suffix(stem: &[char]) -> (r: Option<GbModel>)
    ensures
        r == suffix_model(stem@),
{
    if has_suffix(stem, "-dmgABCmgb") || has_suffix(stem, "-dmgABC") {
        Some(GbModel::Dmg)
    } else if has_suffix(stem, "-dmg0") {
        Some(GbModel::Dmg0)
    } else if has_suffix(stem, "-mgb") {
        Some(GbModel::Mgb)
    } else if has_suffix(stem, "-sgb2") {
        Some(GbModel::Sgb2)
    } else if has_suffix(stem, "-sgb") || has_suffix(stem, "-S") {
        Some(GbModel::Sgb)
    } else if has_suffix(stem, "-A") {
        Some(GbModel::Agb)
    } else if has_suffix(stem, "-cgb0") {
        Some(GbModel::Cgb0)
    } else if has_suffix(stem, "-C") || has_suffix(stem, "-cgb") || has_suffix(stem, "-cgbABCDE") {
        Some(GbModel::Cgb)
    } else if has_suffix(stem, "-GS") || has_suffix(stem, "-G") {
        Some(GbModel::Dmg)
    } else {
        None
    }
}

/// The model for a test program. `stem` is its file name without the extension;
/// either is empty where it is not valid text.
pub fn detect_model_with_rom(path: &str, stem: &str, rom: Option<&[u8]>) -> (r: GbModel)
    ensures
        r == test_model(
            path@,
            stem@,
            match rom {
                Some(data) => Some(data@),
                None => None,
            },
        ),
{
    let p: Vec<char> = chars_of(path);
    if has(&p, "oam_bug") {
        return GbModel::Dmg;
    }
    let s: Vec<char> = chars_of(stem);
    match model_of_suffix(&s) {
        Some(m) => m,
        None => match rom {
            Some(data) => {
                if data.len() > 0x143 && (data[0x143] == 0x80 || data[0x143] == 0xC0) {
                    GbModel::Cgb
                } else {
                    GbModel::Dmg
                }
            },
            None => GbModel::Cgb,
        },
    }
}

/// Boot ROM files for a model, in order of preference.
pub open spec fn boot_rom_files(model: GbModel) -> Seq<Seq<char>> {
    match model {
        GbModel::Dmg0 => seq!["bootroms/dmg0_boot.bin"@, "bootroms/dmg_boot.bin"@],
        GbModel::Dmg => seq!["bootroms/dmg_boot.bin"@],
        GbModel::Mgb => seq!["bootroms/mgb_boot.bin"@, "bootroms/dmg_boot.bin"@],
        GbModel::Sgb => seq!["bootroms/sgb_boot.bin"@],
        GbModel::Sgb2 => seq!["bootroms/sgb2_boot.bin"@],
        GbModel::Cgb0 => seq!["bootroms/cgb0_boot.bin"@, "bootroms/cgb_boot.bin"@],
        GbModel::Cgb => seq!["bootroms/cgb_boot.bin"@, "gbc_bios.bin"@],
        GbModel::Agb => seq!["bootroms/cgb_agb_boot.bin"@, "bootroms/cgb_boot.bin"@],
    }
}

/// Boot ROM files for a model, in order of preference.
pub fn boot_rom_candidates(model: GbModel) -> (r: Vec<&'static str>)
    ensures
        r@.len() == boot_rom_files(model).len(),
        forall|i: int| 0 <= i < r@.len() ==> (#[trigger] r@[i])@ == boot_rom_files(model)[i],
{
    match model {
        GbModel::Dmg0 => vec!["bootroms/dmg0_boot.bin", "bootroms/dmg_boot.bin"],
        GbModel::Dmg => vec!["bootroms/dmg_boot.bin"],
        GbModel::Mgb => vec!["bootroms/mgb_boot.bin", "bootroms/dmg_boot.bin"],
        GbModel::Sgb => vec!["bootroms/sgb_boot.bin"],
        GbModel::Sgb2 => vec!["bootroms/sgb2_boot.bin"],
        GbModel::Cgb0 => vec!["bootroms/cgb0_boot.bin", "bootroms/cgb_boot.bin"],
        GbModel::Cgb => vec!["bootroms/cgb_boot.bin", "gbc_bios.bin"],
        GbModel::Agb => vec!["bootroms/cgb_agb_boot.bin", "bootroms/cgb_boot.bin"],
    }
}

/// Where the boot ROM of a run comes from.
#[derive(Clone, Copy, PartialEq, Eq, Structural)]
pub enum BootSource {
    /// No boot ROM.
    Nowhere,
    /// The named file; it must be readable.
    Named,
    /// The first readable one of the model's files.
    Candidates,
}

/// Where the boot ROM of a run comes from: a named file counts even if booting
/// was not asked for.
pub fn resolve_boot_rom(boot: bool, named: bool) -> (r: BootSource)
    ensures
        r == if named {
            BootSource::Named
        } else if boot {
            BootSource::Candidates
        } else {
            BootSource::Nowhere
        },
{
    if named {
        BootSource::Named
    } else if boot {
        BootSource::Candidates
    } else {
        BootSource::Nowhere
    }
}

} // verus!
