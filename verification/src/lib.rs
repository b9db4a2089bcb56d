//! A verified interpreter core for a small 1970s-era virtual machine:
//! a 16-register 8-bit CPU with 4096 bytes of memory, a 64x32 monochrome
//! framebuffer, a 16-entry call stack, two countdown timers, and a
//! 16-key hexadecimal keypad.

pub mod cartridge;
pub mod decode;
pub mod laws;
pub mod processor;

use vstd::prelude::*;

verus! {

/// Framebuffer columns.
pub const CHIP8_SCREEN_WIDTH: usize = 64;

/// Framebuffer rows.
pub const CHIP8_SCREEN_HEIGHT: usize = 32;

/// Bytes of addressable memory.
pub const CHIP8_RAM_SIZE_BYTES: usize = 4096;

/// The conventional address at which a program is loaded.
pub const CHIP8_START_OF_PROGRAM: usize = 512;

/// The largest program image: the memory above the conventional start.
pub const CHIP8_PROGRAM_SIZE: usize = 3584;

} // verus!
