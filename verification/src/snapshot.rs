//! Snapshots for rewind and save states.

use vstd::prelude::*;

use crate::snes::cpu::Cpu65816;
use crate::snes::dma::DmaController;
use crate::snes::icd2::Icd2;
use crate::snes::ppu_regs::SnesPpuRegs;

verus! {

/// State of the SNES subsystem without its ROM, which never changes.
pub struct SnesSnapshot {
    pub cpu: Cpu65816,
    pub bus_wram: Vec<u8>,
    pub bus_ppu: SnesPpuRegs,
    pub bus_dma: DmaController,
    pub bus_icd2: Icd2,
    pub nmitimen: u8,
    pub rdnmi: u8,
    pub timeup: u8,
    pub hvbjoy: u8,
    pub joy1: u16,
    pub joy2: u16,
    pub wrmpya: u8,
    pub wrmpyb: u8,
    pub wrdiv: u16,
    pub wrdivb: u8,
    pub rddiv: u16,
    pub rdmpy: u16,
    pub wrio: u8,
    pub htime: u16,
    pub vtime: u16,
    pub mdmaen: u8,
    pub hdmaen: u8,
    pub memsel: u8,
    pub apu_out: [u8; 4],
    pub apu_in: [u8; 4],
    pub apu_state: u8,
    pub apu_last_counter: u8,
    pub apu_port1_val: u8,
    pub apu_echo_pending: bool,
    pub nmi_fire_count: u64,
    pub wmadd: u32,
    pub active_display_start: u64,
    pub current_cpu_cycles: u64,
    pub in_vblank: bool,
    pub irq_ack: bool,
    pub frame_count: u64,
}

} // verus!
