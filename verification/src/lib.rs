//! A CHIP-8 virtual machine: instruction decoder, execution engine,
//! register file, call stack, memory and a 64x32 two-colour framebuffer.
//!
//! Every function is verified against a contract stated over a mathematical
//! model of the machine ([`chip8::MachineState`]) and of the screen (a
//! sequence of 2048 colour values, row by row).

use vstd::prelude::*;

pub mod chip8;
pub mod cli;
pub mod display;
pub mod fault;
pub mod instructions;
pub mod keypad;
pub mod machine;
pub mod registers;
pub mod stack;

verus! {

/// Width of the screen in pixels.
pub const WIDTH: usize = 64;

/// Height of the screen in pixels.
pub const HEIGHT: usize = 32;

/// Number of cells of the screen, `WIDTH * HEIGHT`.
pub const PIXELS: usize = 2048;

} // verus!
