//! Running test programs and judging them.

pub mod commands;
pub mod debug_commands;
pub mod gpu_svg;
pub mod harness;
pub mod harnesses;
pub mod laws;
pub mod model;
pub mod overlay;
pub mod overlay_laws;
pub mod svg_path;
pub mod util;
