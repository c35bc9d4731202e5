use vstd::prelude::*;

pub mod cpu;
pub mod input;
pub mod laws;

pub use cpu::{Emulator, OpCode};
pub use input::{process_key, KeyState};

verus! {

/// Width of the framebuffer in pixels.
pub const SCREEN_WIDTH: usize = 64;
/// Height of the framebuffer in pixels.
pub const SCREEN_HEIGHT: usize = 32;

} // verus!
