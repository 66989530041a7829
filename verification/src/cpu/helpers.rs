//! The operand tables of the instruction encoding: an opcode `xxyyyzzz`
//! names its operands by the 3-bit fields `y` and `z` (and `p = y >> 1`).

use vstd::prelude::*;
use crate::cpu::{AccFlag, Alu, CBRot};
use crate::registers::{Condition, Register, RegisterPair};

verus! {

/// The 16-bit register numbered `p` in loads, increments and additions.
pub open spec fn spec_rp(p: u8) -> RegisterPair {
    if p == 0 {
        RegisterPair::BC
    } else if p == 1 {
        RegisterPair::DE
    } else if p == 2 {
        RegisterPair::HL
    } else {
        RegisterPair::SP
    }
}

/// The 16-bit register numbered `p` in pushes and pops.
pub open spec fn spec_rp2(p: u8) -> RegisterPair {
    if p == 0 {
        RegisterPair::BC
    } else if p == 1 {
        RegisterPair::DE
    } else if p == 2 {
        RegisterPair::HL
    } else {
        RegisterPair::AF
    }
}

/// The 8-bit operand numbered `y`; 6 is the byte at (HL).
pub open spec fn spec_r(y: u8) -> Register {
    if y == 0 {
        Register::B
    } else if y == 1 {
        Register::C
    } else if y == 2 {
        Register::D
    } else if y == 3 {
        Register::E
    } else if y == 4 {
        Register::H
    } else if y == 5 {
        Register::L
    } else if y == 6 {
        Register::HLDirect
    } else {
        Register::A
    }
}

/// The condition that `y` names in a relative jump: 4 to 7 are NZ, Z, NC, C.
pub open spec fn spec_cc(y: u8) -> Condition {
    if y == 4 {
        Condition::NZ
    } else if y == 5 {
        Condition::Z
    } else if y == 6 {
        Condition::NC
    } else {
        Condition::C
    }
}

/// The accumulator operation numbered `y`.
pub open spec fn spec_af(y: u8) -> AccFlag {
    if y == 0 {
        AccFlag::Rlca
    } else if y == 1 {
        AccFlag::Rrca
    } else if y == 2 {
        AccFlag::Rla
    } else if y == 3 {
        AccFlag::Rra
    } else if y == 4 {
        AccFlag::Daa
    } else if y == 5 {
        AccFlag::Cpl
    } else if y == 6 {
        AccFlag::Scf
    } else {
        AccFlag::Ccf
    }
}

/// The arithmetic/logic operation numbered `y`.
pub open spec fn spec_alu(y: u8) -> Alu {
    if y == 0 {
        Alu::Add
    } else if y == 1 {
        Alu::Adc
    } else if y == 2 {
        Alu::Sub
    } else if y == 3 {
        Alu::Sbc
    } else if y == 4 {
        Alu::And
    } else if y == 5 {
        Alu::Xor
    } else if y == 6 {
        Alu::Or
    } else {
        Alu::Cp
    }
}

/// The rotate/shift operation numbered `y` on the operand numbered `z`.
pub open spec fn spec_rot(y: u8, z: u8) -> CBRot {
    let reg = spec_r(z);
    if y == 0 {
        CBRot::Rlc(reg)
    } else if y == 1 {
        CBRot::Rrc(reg)
    } else if y == 2 {
        CBRot::Rl(reg)
    } else if y == 3 {
        CBRot::Rr(reg)
    } else if y == 4 {
        CBRot::Sla(reg)
    } else if y == 5 {
        CBRot::Sra(reg)
    } else if y == 6 {
        CBRot::Swap(reg)
    } else {
        CBRot::Srl(reg)
    }
}

#[verifier::when_used_as_spec(spec_rp)]
pub fn rp(p: u8) -> (pair: RegisterPair)
    requires
        p <= 3,
    ensures
        pair == spec_rp(p),
{
    match p {
        0 => RegisterPair::BC,
        1 => RegisterPair::DE,
        2 => RegisterPair::HL,
        _ => RegisterPair::SP,
    }
}

#[verifier::when_used_as_spec(spec_rp2)]
pub fn rp2(p: u8) -> (pair: RegisterPair)
    requires
        p <= 3,
    ensures
        pair == spec_rp2(p),
{
    match p {
        0 => RegisterPair::BC,
        1 => RegisterPair::DE,
        2 => RegisterPair::HL,
        _ => RegisterPair::AF,
    }
}

#[verifier::when_used_as_spec(spec_r)]
pub fn r(y: u8) -> (reg: Register)
    requires
        y <= 7,
    ensures
        reg == spec_r(y),
{
    match y {
        0 => Register::B,
        1 => Register::C,
        2 => Register::D,
        3 => Register::E,
        4 => Register::H,
        5 => Register::L,
        6 => Register::HLDirect,
        _ => Register::A,
    }
}

#[verifier::when_used_as_spec(spec_cc)]
pub fn cc(y: u8) -> (cond: Condition)
    requires
        4 <= y <= 7,
    ensures
        cond == spec_cc(y),
{
    match y {
        4 => Condition::NZ,
        5 => Condition::Z,
        6 => Condition::NC,
        _ => Condition::C,
    }
}

#[verifier::when_used_as_spec(spec_af)]
pub fn af(y: u8) -> (op: AccFlag)
    requires
        y <= 7,
    ensures
        op == spec_af(y),
{
    match y {
        0 => AccFlag::Rlca,
        1 => AccFlag::Rrca,
        2 => AccFlag::Rla,
        3 => AccFlag::Rra,
        4 => AccFlag::Daa,
        5 => AccFlag::Cpl,
        6 => AccFlag::Scf,
        _ => AccFlag::Ccf,
    }
}

#[verifier::when_used_as_spec(spec_alu)]
pub fn alu(y: u8) -> (op: Alu)
    requires
        y <= 7,
    ensures
        op == spec_alu(y),
{
    match y {
        0 => Alu::Add,
        1 => Alu::Adc,
        2 => Alu::Sub,
        3 => Alu::Sbc,
        4 => Alu::And,
        5 => Alu::Xor,
        6 => Alu::Or,
        _ => Alu::Cp,
    }
}

#[verifier::when_used_as_spec(spec_rot)]
pub fn rot(y: u8, z: u8) -> (op: CBRot)
    requires
        y <= 7,
        z <= 7,
    ensures
        op == spec_rot(y, z),
{
    match y {
        0 => CBRot::Rlc(r(z)),
        1 => CBRot::Rrc(r(z)),
        2 => CBRot::Rl(r(z)),
        3 => CBRot::Rr(r(z)),
        4 => CBRot::Sla(r(z)),
        5 => CBRot::Sra(r(z)),
        6 => CBRot::Swap(r(z)),
        _ => CBRot::Srl(r(z)),
    }
}

} // verus!
