//! Core of a CHIP-8 class virtual machine: memory bank, display buffer,
//! keyboard state, call stack, register file with timers, and the
//! fetch-decode-execute interpreter. Everything here is verified; the
//! host-facing shell (windowing, audio, ROM file reading, scheduling)
//! lives outside this crate.

use vstd::prelude::*;

pub mod cpu;
pub mod keyboard;
pub mod memory;

verus! {

/// Size of the memory bank in bytes.
pub const RAM_SIZE: usize = 4096;

/// Width of the display buffer in pixels.
pub const DISPLAY_WIDTH: usize = 64;

/// Height of the display buffer in pixels.
pub const DISPLAY_HEIGHT: usize = 32;

} // verus!
