//! The SM83 CPU: its state, the operand tables of the instruction encoding,
//! the semantics of every instruction, and fetch/decode/execute.

pub mod encoding;
pub mod fde;
pub mod helpers;
pub mod laws;
pub mod ops;
pub mod semantics;

use vstd::prelude::*;
use crate::registers::{FlagsRegister, Register, Registers};

verus! {

/// The accumulator and flag operations of the `00yyy111` row.
pub enum AccFlag {
    Rlca,
    Rrca,
    Rla,
    Rra,
    Daa,
    Cpl,
    Scf,
    Ccf,
}

/// The rotate and shift operations of the `CB 00yyyzzz` row.
pub enum CBRot {
    Rlc(Register),
    Rrc(Register),
    Rl(Register),
    Rr(Register),
    Sla(Register),
    Sra(Register),
    Swap(Register),
    Srl(Register),
}

/// The eight arithmetic and logic operations on the accumulator.
pub enum Alu {
    Add,
    Adc,
    Sub,
    Sbc,
    And,
    Xor,
    Or,
    Cp,
}

/// The CPU's state besides memory.
#[derive(Clone, Copy)]
pub struct Cpu {
    pub registers: Registers,
    pub pc: u16,
    pub halted: bool,
    pub halt_bug: bool,
    pub ime: bool,
}

impl Default for Cpu {
    /// The state after the boot ROM: execution starts at 0x0100.
    fn default() -> (c: Self)
        ensures
            c.registers.a == 0x01,
            c.registers.f.byte() == 0xB0,
            c.registers.f == FlagsRegister::from_byte(0xB0),
            c.registers.b == 0x00,
            c.registers.c == 0x13,
            c.registers.d == 0x00,
            c.registers.e == 0xD8,
            c.registers.h == 0x01,
            c.registers.l == 0x4D,
            c.registers.sp == 0xFFFE,
            c.pc == 0x0100,
            !c.halted,
            !c.halt_bug,
            !c.ime,
    {
        Self { registers: Registers::default(), pc: 0x0100, halted: false, halt_bug: false, ime: false }
    }
}

} // verus!
