//! Verified core of a Game Boy / Super Game Boy emulator.

pub mod bytes;
pub mod gamepad;
pub mod grid;
pub mod model;
pub mod scaling;
pub mod serial;
pub mod serial_laws;
pub mod session;
pub mod session_laws;
pub mod sgb;
pub mod sgb_laws;
pub mod snapshot;
pub mod snes;
pub mod test_runner;
pub mod text;
pub mod timer;
pub mod timer_laws;
pub mod ui_util;
