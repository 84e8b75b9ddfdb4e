//! The core of an 8-bit handheld emulator (Sharp LR35902-class CPU).
//!
//! - `mmu`: the flat 64KB memory bus.
//! - `cpu`: the register file, the flag rules, and the fetch-decode-execute
//!   step, whose effect is stated by the spec function `cpu::next`.
//! - `graphics`: the RGB framebuffer and the decoding of tiles into it.
use vstd::prelude::*;

pub mod cpu;
pub mod graphics;
pub mod mmu;

verus! {

} // verus!
