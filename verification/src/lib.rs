//! A Game Boy (DMG) emulator core: registers, memory map, the SM83 CPU's
//! instruction semantics and the top-level machine step.

pub mod bits;
pub mod registers;
pub mod memory;
pub mod cpu;
pub mod gameboy;
